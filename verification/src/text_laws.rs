//! What holds of words, joining, splitting and trimming.

use crate::text;
use crate::text::CharClass;
use vstd::prelude::*;

verus! {

/// Whether a text is a word: not empty and without white space.
pub open spec fn is_word(s: Seq<char>) -> bool {
    s.len() > 0 && forall|i: int| 0 <= i < s.len() ==> !text::white_space(#[trigger] s[i])
}

/// Whether all parts are words.
pub open spec fn all_words(parts: Seq<Seq<char>>) -> bool {
    forall|i: int| 0 <= i < parts.len() ==> is_word(#[trigger] parts[i])
}

/// The words of a text are not empty and hold no white space.
pub proof fn law_words_are_words(s: Seq<char>)
    ensures
        all_words(text::words(s)),
        s.len() > 0 && !text::white_space(s.last()) ==> text::words(s).len() > 0,
    decreases s.len(),
{
    if s.len() > 0 {
        let before = text::words(s.drop_last());
        law_words_are_words(s.drop_last());
        if !text::white_space(s.last()) {
            if s.len() == 1 || text::white_space(s[s.len() - 2]) {
                assert(is_word(seq![s.last()]));
            } else {
                assert(s.drop_last().last() == s[s.len() - 2]);
                assert(is_word(before.last()));
                assert(is_word(before.last().push(s.last())));
            }
        }
    }
}

/// One more word after white space.
proof fn lemma_append_word(s: Seq<char>, word: Seq<char>)
    requires
        is_word(word),
        s.len() == 0 || text::white_space(s.last()),
    ensures
        text::words(s + word) == text::words(s).push(word),
    decreases word.len(),
{
    let all = s + word;
    let shorter = word.drop_last();
    assert(all.drop_last() =~= s + shorter);
    assert(all.last() == word.last());
    if word.len() == 1 {
        assert(s + shorter =~= s);
        assert(word =~= seq![word.last()]);
        if s.len() > 0 {
            assert(all[all.len() - 2] == s.last());
        }
    } else {
        assert forall|i: int| 0 <= i < shorter.len() implies !text::white_space(
            #[trigger] shorter[i],
        ) by {
            assert(shorter[i] == word[i]);
        }
        lemma_append_word(s, shorter);
        assert(all[all.len() - 2] == word[word.len() - 2]);
        assert(text::words(s).push(shorter).drop_last() =~= text::words(s));
        assert(shorter.push(word.last()) =~= word);
    }
}

/// Words joined by single spaces are read back as the same words.
pub proof fn law_words_of_sentence(parts: Seq<Seq<char>>)
    requires
        all_words(parts),
    ensures
        text::words(text::sentence(parts)) == parts,
    decreases parts.len(),
{
    if parts.len() == 0 {
        assert(parts =~= Seq::empty());
    } else {
        let before = parts.drop_last();
        assert forall|i: int| 0 <= i < before.len() implies is_word(#[trigger] before[i]) by {
            assert(before[i] == parts[i]);
        }
        law_words_of_sentence(before);
        let word = parts.last();
        assert(is_word(parts[parts.len() - 1]));
        if parts.len() == 1 {
            lemma_append_word(Seq::empty(), word);
            assert(Seq::<char>::empty() + word =~= word);
            assert(parts =~= Seq::<Seq<char>>::empty().push(word));
        } else {
            let head = text::sentence(before);
            let spaced = head + seq![' '];
            assert(spaced.drop_last() =~= head);
            assert(text::white_space(spaced.last()));
            assert(text::words(spaced) == before);
            lemma_append_word(spaced, word);
            assert(before.push(word) =~= parts);
        }
    }
}

/// Spacing the words of a text evenly does not change its words.
pub proof fn law_words_after_respacing(s: Seq<char>)
    ensures
        text::words(text::sentence(text::words(s))) == text::words(s),
{
    law_words_are_words(s);
    law_words_of_sentence(text::words(s));
}

/// The stretches between the separators, joined by the separator, are the text.
pub proof fn law_join_undoes_split(s: Seq<char>, sep: char)
    ensures
        text::join(text::split(s, sep), seq![sep]) == s,
        text::split(s, sep).len() > 0,
    decreases s.len(),
{
    let parts = text::split(s, sep);
    if s.len() == 0 {
        assert(parts.drop_last() =~= Seq::empty());
        assert(parts.last() =~= s);
    } else {
        let before = text::split(s.drop_last(), sep);
        law_join_undoes_split(s.drop_last(), sep);
        let head = s.drop_last();
        assert(head.push(s.last()) =~= s);
        if s.last() == sep {
            assert(parts.drop_last() =~= before);
            assert(head + seq![sep] + Seq::empty() =~= s);
        } else {
            assert(parts.drop_last() =~= before.drop_last());
            if before.len() > 1 {
                let first = text::join(before.drop_last(), seq![sep]);
                assert(first + seq![sep] + before.last().push(s.last()) =~= (first + seq![sep]
                    + before.last()).push(s.last()));
            }
        }
    }
}

/// No stretch between the separators holds the separator.
pub proof fn law_split_parts_lack_separator(s: Seq<char>, sep: char)
    ensures
        text::split(s, sep).len() > 0,
        forall|i: int|
            0 <= i < text::split(s, sep).len() ==> !(#[trigger] text::split(s, sep)[i]).contains(
                sep,
            ),
    decreases s.len(),
{
    let parts = text::split(s, sep);
    if s.len() > 0 {
        let before = text::split(s.drop_last(), sep);
        law_split_parts_lack_separator(s.drop_last(), sep);
        assert forall|i: int| 0 <= i < parts.len() implies !(#[trigger] parts[i]).contains(
            sep,
        ) by {
            if i < before.len() - 1 {
                assert(parts[i] == before[i]);
            } else if s.last() != sep {
                let last = before[before.len() - 1];
                assert(!last.contains(sep));
                assert(parts[i] == last.push(s.last()));
                if parts[i].contains(sep) {
                    let k = choose|k: int| 0 <= k < parts[i].len() && parts[i][k] == sep;
                    assert(last[k] == sep);
                }
            } else if i < before.len() {
                assert(parts[i] == before[i]);
            }
        }
    }
}

/// What is left of a trim at the start is a stretch up to the end.
proof fn lemma_trimmed_start(s: Seq<char>, class: CharClass)
    ensures
        text::trimmed_start(s, class).len() <= s.len(),
        text::trimmed_start(s, class) == s.skip(s.len() - text::trimmed_start(s, class).len()),
        text::trimmed_start(s, class).len() > 0 ==> !class.holds(
            text::trimmed_start(s, class).first(),
        ),
        forall|i: int|
            0 <= i < s.len() - text::trimmed_start(s, class).len() ==> class.holds(
                #[trigger] s[i],
            ),
    decreases s.len(),
{
    if s.len() > 0 && class.holds(s.first()) {
        let rest = s.drop_first();
        lemma_trimmed_start(rest, class);
        let left = text::trimmed_start(rest, class);
        assert(s.skip(s.len() - left.len()) =~= rest.skip(rest.len() - left.len()));
        assert forall|i: int| 0 <= i < s.len() - left.len() implies class.holds(
            #[trigger] s[i],
        ) by {
            if i > 0 {
                assert(rest[i - 1] == s[i]);
            }
        }
    } else {
        assert(s.skip(0) =~= s);
    }
}

/// What is left of a trim at the end is a stretch from the start.
proof fn lemma_trimmed_end(s: Seq<char>, class: CharClass)
    ensures
        text::trimmed_end(s, class).len() <= s.len(),
        text::trimmed_end(s, class) == s.take(text::trimmed_end(s, class).len() as int),
        text::trimmed_end(s, class).len() > 0 ==> !class.holds(
            text::trimmed_end(s, class).last(),
        ),
        forall|i: int|
            text::trimmed_end(s, class).len() <= i < s.len() ==> class.holds(#[trigger] s[i]),
    decreases s.len(),
{
    if s.len() > 0 && class.holds(s.last()) {
        let rest = s.drop_last();
        lemma_trimmed_end(rest, class);
        let left = text::trimmed_end(rest, class);
        assert(s.take(left.len() as int) =~= rest.take(left.len() as int));
        assert forall|i: int| left.len() <= i < s.len() implies class.holds(#[trigger] s[i]) by {
            if i < rest.len() {
                assert(rest[i] == s[i]);
            }
        }
    } else {
        assert(s.take(s.len() as int) =~= s);
    }
}

/// A trimmed text neither starts nor ends with a member of the class, and to trim it again
/// changes nothing.
pub proof fn law_trimmed_ends(s: Seq<char>, class: CharClass)
    ensures
        text::trimmed(s, class).len() > 0 ==> !class.holds(text::trimmed(s, class).first())
            && !class.holds(text::trimmed(s, class).last()),
        text::trimmed(text::trimmed(s, class), class) == text::trimmed(s, class),
{
    let start = text::trimmed_start(s, class);
    let core = text::trimmed(s, class);
    lemma_trimmed_start(s, class);
    lemma_trimmed_end(start, class);
    if core.len() > 0 {
        assert(core.first() == start.first());
    }
}

/// Whether all characters of a text belong to a class.
pub open spec fn all_of(s: Seq<char>, class: CharClass) -> bool {
    forall|i: int| 0 <= i < s.len() ==> class.holds(#[trigger] s[i])
}

/// The characters that a trim takes off: white space, quotation marks, or all but letters and
/// digits.
pub proof fn law_classes_of_characters(c: char)
    ensures
        CharClass::WhiteSpace.holds(c) <==> text::white_space(c),
        CharClass::Quote.holds(c) <==> c == '"',
        CharClass::NotAlphanumeric.holds(c) <==> !text::alphanumeric(c),
{
}

/// Among the ASCII characters, space, tab, line feed, line tabulation, form feed and carriage
/// return are white space, and letters and digits are alphanumeric.
pub proof fn law_ascii_characters(c: char)
    requires
        (c as u32) < 0x80,
    ensures
        text::white_space(c) <==> c == ' ' || c == '\t' || c == '\n' || c == '\x0b' || c == '\x0c'
            || c == '\r',
        text::alphanumeric(c) <==> 'a' <= c <= 'z' || 'A' <= c <= 'Z' || '0' <= c <= '9',
{
}

/// Lowering touches the capitals of ASCII only, and keeps them apart and in order.
pub proof fn law_lowering_touches_capitals_only(c: char, d: char)
    ensures
        'A' <= c <= 'Z' <==> text::ascii_lower(c) != c,
        'A' <= c <= 'Z' ==> 'a' <= text::ascii_lower(c) <= 'z',
        'A' <= c < d <= 'Z' ==> text::ascii_lower(c) < text::ascii_lower(d),
{
}

/// A trim takes members of the class off both ends of a text, and nothing else: of a text
/// between members of the class the text is left, and of members of the class nothing.
pub proof fn law_trim_leaves_the_core(
    left: Seq<char>,
    core: Seq<char>,
    right: Seq<char>,
    class: CharClass,
)
    requires
        all_of(left, class),
        all_of(right, class),
        core.len() > 0 ==> !class.holds(core.first()) && !class.holds(core.last()),
    ensures
        text::trimmed(left + core + right, class) == core,
{
    let s = left + core + right;
    let start = text::trimmed_start(s, class);
    let end = text::trimmed_end(start, class);
    let k = s.len() - start.len();
    lemma_trimmed_start(s, class);
    lemma_trimmed_end(start, class);
    assert forall|i: int| 0 <= i < left.len() implies class.holds(#[trigger] s[i]) by {
        assert(s[i] == left[i]);
    }
    assert forall|i: int| left.len() + core.len() <= i < s.len() implies class.holds(
        #[trigger] s[i],
    ) by {
        assert(s[i] == right[i - left.len() - core.len()]);
    }
    assert(start =~= s.skip(k as int));
    if core.len() > 0 {
        assert(s[left.len() as int] == core.first());
        assert(s[left.len() + core.len() - 1] == core.last());
        assert(k <= left.len());
        if k < left.len() {
            assert(start.first() == s[k as int]);
        }
        assert(k == left.len());
        assert(start[core.len() - 1] == core.last());
        assert(end.len() >= core.len()) by {
            if end.len() < core.len() {
                assert(class.holds(start[core.len() - 1]));
            }
        }
        if end.len() > core.len() {
            assert(end.last() == s[k + end.len() - 1]);
        }
        assert(end =~= core);
    } else {
        if end.len() > 0 {
            assert(start.first() == s[k as int]);
        }
        assert(end =~= core);
    }
}

/// Whether a text is the stretch of another between two places, and all that stands before and
/// after it belongs to the class.
pub open spec fn stretch_between(
    s: Seq<char>,
    core: Seq<char>,
    class: CharClass,
    from: int,
    to: int,
) -> bool {
    &&& 0 <= from <= to <= s.len()
    &&& core == s.subrange(from, to)
    &&& forall|i: int| 0 <= i < from || to <= i < s.len() ==> class.holds(#[trigger] s[i])
}

/// A trimmed text is one stretch of the text, with nothing but members of the class around it.
pub proof fn law_trimmed_is_a_stretch(s: Seq<char>, class: CharClass)
    ensures
        exists|from: int, to: int| stretch_between(s, text::trimmed(s, class), class, from, to),
{
    let start = text::trimmed_start(s, class);
    let end = text::trimmed_end(start, class);
    let from = s.len() - start.len();
    let to = from + end.len();
    lemma_trimmed_start(s, class);
    lemma_trimmed_end(start, class);
    assert(end =~= s.subrange(from, to));
    assert forall|i: int| to <= i < s.len() implies class.holds(#[trigger] s[i]) by {
        assert(start[i - from] == s[i]);
    }
    assert(text::trimmed(s, class) == end);
    assert(stretch_between(s, text::trimmed(s, class), class, from, to));
}

/// The last character of a trimmed text is the last that does not belong to the class.
pub proof fn law_trimmed_last(s: Seq<char>, place: int, class: CharClass)
    requires
        0 <= place < s.len(),
        !class.holds(s[place]),
        forall|i: int| place < i < s.len() ==> class.holds(#[trigger] s[i]),
    ensures
        text::trimmed(s, class).len() > 0,
        text::trimmed(s, class).last() == s[place],
{
    let start = text::trimmed_start(s, class);
    let end = text::trimmed_end(start, class);
    let k = s.len() - start.len();
    lemma_trimmed_start(s, class);
    lemma_trimmed_end(start, class);
    assert(k <= place);
    assert(start[place - k] == s[place]);
    assert(end.len() > place - k);
    if end.len() - 1 > place - k {
        assert(end.last() == s[k + end.len() - 1]);
    }
}

/// A word on its own is the only word of its text, and an empty text has no words.
pub proof fn law_word_alone(word: Seq<char>)
    requires
        is_word(word),
    ensures
        text::words(word) == seq![word],
        text::words(Seq::empty()).len() == 0,
{
    lemma_append_word(Seq::empty(), word);
    assert(Seq::<char>::empty() + word =~= word);
    assert(Seq::<Seq<char>>::empty().push(word) =~= seq![word]);
}

/// White space parts a text: its words are those before and those after it.
pub proof fn law_words_around_white_space(before: Seq<char>, c: char, after: Seq<char>)
    requires
        text::white_space(c),
    ensures
        text::words(before.push(c) + after) == text::words(before) + text::words(after),
    decreases after.len(),
{
    let all = before.push(c) + after;
    if after.len() == 0 {
        assert(all =~= before.push(c));
        assert(before.push(c).drop_last() =~= before);
        assert(text::words(before) + text::words(after) =~= text::words(before));
    } else {
        let less = after.drop_last();
        law_words_around_white_space(before, c, less);
        assert(all.drop_last() =~= before.push(c) + less);
        assert(all.last() == after.last());
        let first = text::words(before);
        let second = text::words(less);
        if !text::white_space(after.last()) {
            if after.len() == 1 {
                assert(all[all.len() - 2] == c);
                assert(less =~= Seq::empty());
                assert((first + second).push(seq![after.last()]) =~= first + second.push(
                    seq![after.last()],
                ));
            } else {
                assert(all[all.len() - 2] == after[after.len() - 2]);
                if text::white_space(after[after.len() - 2]) {
                    assert((first + second).push(seq![after.last()]) =~= first + second.push(
                        seq![after.last()],
                    ));
                } else {
                    law_words_are_words(less);
                    assert(less.last() == after[after.len() - 2]);
                    assert(text::extend_last(first + second, after.last()) =~= first
                        + text::extend_last(second, after.last()));
                }
            }
        }
    }
}

/// Parts that are joined in two groups: the separator stands between the groups, a single part
/// is joined to itself, and no parts to nothing.
pub proof fn law_join_in_groups(first: Seq<Seq<char>>, second: Seq<Seq<char>>, sep: Seq<char>)
    requires
        first.len() > 0,
        second.len() > 0,
    ensures
        text::join(first + second, sep) == text::join(first, sep) + sep + text::join(second, sep),
        first.len() == 1 ==> text::join(first, sep) == first[0],
        text::join(Seq::empty(), sep).len() == 0,
    decreases second.len(),
{
    let all = first + second;
    let less = second.drop_last();
    assert(all.drop_last() =~= first + less);
    assert(all.last() == second.last());
    if second.len() == 1 {
        assert(first + less =~= first);
    } else {
        law_join_in_groups(first, less, sep);
        assert(text::join(first, sep) + sep + text::join(less, sep) + sep + second.last()
            =~= text::join(first, sep) + sep + (text::join(less, sep) + sep + second.last()));
    }
}

/// Where a part begins in the parts joined by a separator of the given length.
pub open spec fn place_of(parts: Seq<Seq<char>>, gap: nat, i: int) -> int
    decreases i,
{
    if i <= 0 {
        0
    } else {
        place_of(parts, gap, i - 1) + parts[i - 1].len() + gap
    }
}

/// The places of the first parts do not depend on the last one.
proof fn lemma_place_of(parts: Seq<Seq<char>>, gap: nat, i: int)
    requires
        0 <= i < parts.len(),
    ensures
        place_of(parts.drop_last(), gap, i) == place_of(parts, gap, i),
    decreases i,
{
    if i > 0 {
        lemma_place_of(parts, gap, i - 1);
    }
}

/// Every part stands in the joined text, one after the other, with the separator between
/// neighbours and nothing else.
pub proof fn law_join_holds_every_part(parts: Seq<Seq<char>>, sep: Seq<char>)
    requires
        parts.len() > 0,
    ensures
        text::join(parts, sep).len() + sep.len() == place_of(
            parts,
            sep.len(),
            parts.len() as int,
        ),
        forall|i: int|
            0 <= i < parts.len() ==> {
                let place = #[trigger] place_of(parts, sep.len(), i);
                &&& place + parts[i].len() <= text::join(parts, sep).len()
                &&& text::join(parts, sep).subrange(place, place + parts[i].len())
                    == parts[i]
            },
        forall|i: int|
            0 < i < parts.len() ==> {
                let place = #[trigger] place_of(parts, sep.len(), i);
                &&& sep.len() <= place <= text::join(parts, sep).len()
                &&& text::join(parts, sep).subrange(place - sep.len(), place) == sep
            },
    decreases parts.len(),
{
    let gap = sep.len();
    let all = text::join(parts, sep);
    let end = parts.len() - 1;
    if parts.len() == 1 {
        assert(place_of(parts, gap, 1) == place_of(parts, gap, 0) + parts[0].len() + gap);
        assert(all.subrange(0, parts[0].len() as int) =~= parts[0]);
    } else {
        let less = parts.drop_last();
        let head = text::join(less, sep);
        law_join_holds_every_part(less, sep);
        lemma_place_of(parts, gap, end);
        assert(all == head + sep + parts.last());
        assert(place_of(parts, gap, end) == head.len() + gap);
        assert forall|i: int| 0 <= i < parts.len() implies {
            let place = #[trigger] place_of(parts, gap, i);
            &&& place + parts[i].len() <= all.len()
            &&& all.subrange(place, place + parts[i].len()) == parts[i]
        } by {
            let place = place_of(parts, gap, i);
            if i < end {
                lemma_place_of(parts, gap, i);
                assert(place == place_of(less, gap, i));
                assert(less[i] == parts[i]);
                assert(all.subrange(place, place + parts[i].len()) =~= head.subrange(
                    place,
                    place + parts[i].len(),
                ));
            } else {
                assert(all.subrange(place, place + parts[i].len()) =~= parts[i]);
            }
        }
        assert forall|i: int| 0 < i < parts.len() implies {
            let place = #[trigger] place_of(parts, gap, i);
            &&& gap <= place <= all.len()
            &&& all.subrange(place - gap, place) == sep
        } by {
            let place = place_of(parts, gap, i);
            if i < end {
                lemma_place_of(parts, gap, i);
                assert(place == place_of(less, gap, i));
                assert(all.subrange(place - gap, place) =~= head.subrange(
                    place - gap,
                    place,
                ));
            } else {
                assert(all.subrange(place - gap, place) =~= sep);
            }
        }
    }
}

/// The number that decimal digits stand for.
pub open spec fn number_read(digits: Seq<char>) -> int
    decreases digits.len(),
{
    if digits.len() == 0 {
        0
    } else {
        10 * number_read(digits.drop_last()) + (digits.last() as int - '0' as int)
    }
}

/// The notation of a number is made of digits, without needless zeros, and is read back as the
/// number.
pub proof fn law_decimal_is_read_back(n: nat)
    ensures
        number_read(text::decimal(n)) == n,
        text::decimal(n).len() > 0,
        forall|i: int|
            0 <= i < text::decimal(n).len() ==> '0' <= #[trigger] text::decimal(n)[i] <= '9',
        text::decimal(n).first() == '0' <==> n == 0,
        n == 0 ==> text::decimal(n).len() == 1,
    decreases n,
{
    reveal_with_fuel(number_read, 2);
    if n < 10 {
        assert(text::decimal(n).drop_last() =~= Seq::empty());
    } else {
        law_decimal_is_read_back(n / 10);
        assert(text::decimal(n).drop_last() =~= text::decimal(n / 10));
        assert(text::decimal(n).first() == text::decimal(n / 10).first());
    }
}

/// A separator parts a text: its stretches are those before and those after it.
pub proof fn law_split_around_separator(before: Seq<char>, sep: char, after: Seq<char>)
    ensures
        text::split(before.push(sep) + after, sep) == text::split(before, sep) + text::split(
            after,
            sep,
        ),
    decreases after.len(),
{
    let all = before.push(sep) + after;
    let first = text::split(before, sep);
    if after.len() == 0 {
        assert(all =~= before.push(sep));
        assert(before.push(sep).drop_last() =~= before);
        assert(first.push(Seq::empty()) =~= first + text::split(after, sep));
    } else {
        let less = after.drop_last();
        let second = text::split(less, sep);
        law_split_around_separator(before, sep, less);
        law_split_parts_lack_separator(less, sep);
        assert(all.drop_last() =~= before.push(sep) + less);
        assert(all.last() == after.last());
        if after.last() == sep {
            assert((first + second).push(Seq::empty()) =~= first + second.push(Seq::empty()));
        } else {
            assert(text::extend_last(first + second, after.last()) =~= first
                + text::extend_last(second, after.last()));
        }
    }
}

/// A text without the separator is its only stretch.
pub proof fn law_split_without_separator(s: Seq<char>, sep: char)
    requires
        forall|i: int| 0 <= i < s.len() ==> #[trigger] s[i] != sep,
    ensures
        text::split(s, sep) == seq![s],
    decreases s.len(),
{
    if s.len() == 0 {
        assert(s =~= Seq::empty());
    } else {
        let less = s.drop_last();
        assert forall|i: int| 0 <= i < less.len() implies #[trigger] less[i] != sep by {
            assert(less[i] == s[i]);
        }
        law_split_without_separator(less, sep);
        assert(less.push(s.last()) =~= s);
        assert(s[s.len() - 1] != sep);
        assert(text::extend_last(seq![less], s.last()) =~= seq![s]);
    }
}

} // verus!
