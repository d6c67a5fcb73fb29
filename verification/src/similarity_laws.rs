//! What does not matter when a correction is compared with what was dictated: the case of
//! ASCII letters, punctuation around words and on its own, the order of words and the sounds
//! of hesitation.

use crate::correction_buffer::CorrectionProfile;
use crate::similarity;
use crate::text;
use crate::text::CharClass;
use vstd::prelude::*;
use vstd::seq_lib::*;
use vstd::utf8::*;

verus! {

/// Whether a text holds neither letters nor digits.
pub open spec fn punctuation(s: Seq<char>) -> bool {
    forall|i: int| 0 <= i < s.len() ==> !text::alphanumeric(#[trigger] s[i])
}

/// Whether two words differ at most in the case of ASCII letters.
pub open spec fn recased(a: Seq<char>, b: Seq<char>) -> bool {
    text::ascii_lowered(a) == text::ascii_lowered(b)
}

/// Whether a word is punctuation, or a sound of hesitation in any case with punctuation
/// around it.
pub open spec fn negligible(word: Seq<char>) -> bool {
    ||| punctuation(word)
    ||| exists|left: Seq<char>, core: Seq<char>, right: Seq<char>|
        hesitation(word, left, core, right)
}

/// Whether a word is a sound of hesitation in any case with punctuation around it.
pub open spec fn hesitation(
    word: Seq<char>,
    left: Seq<char>,
    core: Seq<char>,
    right: Seq<char>,
) -> bool {
    &&& word == left + core + right
    &&& punctuation(left)
    &&& punctuation(right)
    &&& similarity::filler(text::ascii_lowered(core))
}

/// To lower ASCII letters and to take punctuation off the start can be done in any order.
proof fn lemma_lowered_trimmed_start(s: Seq<char>)
    ensures
        text::ascii_lowered(text::trimmed_start(s, CharClass::NotAlphanumeric))
            == text::trimmed_start(text::ascii_lowered(s), CharClass::NotAlphanumeric),
    decreases s.len(),
{
    let low = text::ascii_lowered(s);
    if s.len() > 0 {
        assert(low.first() == text::ascii_lower(s.first()));
        if !text::alphanumeric(s.first()) {
            lemma_lowered_trimmed_start(s.drop_first());
            assert(text::ascii_lowered(s.drop_first()) =~= low.drop_first());
        }
    }
}

/// To lower ASCII letters and to take punctuation off the end can be done in any order.
proof fn lemma_lowered_trimmed_end(s: Seq<char>)
    ensures
        text::ascii_lowered(text::trimmed_end(s, CharClass::NotAlphanumeric))
            == text::trimmed_end(text::ascii_lowered(s), CharClass::NotAlphanumeric),
    decreases s.len(),
{
    let low = text::ascii_lowered(s);
    if s.len() > 0 {
        assert(low.last() == text::ascii_lower(s.last()));
        if !text::alphanumeric(s.last()) {
            lemma_lowered_trimmed_end(s.drop_last());
            assert(text::ascii_lowered(s.drop_last()) =~= low.drop_last());
        }
    }
}

/// Words that differ in the case of ASCII letters are compared alike.
pub proof fn law_case_does_not_matter(a: Seq<char>, b: Seq<char>)
    requires
        recased(a, b),
    ensures
        similarity::normalized(a) == similarity::normalized(b),
{
    lemma_lowered_trimmed_start(a);
    lemma_lowered_trimmed_start(b);
    lemma_lowered_trimmed_end(text::trimmed_start(a, CharClass::NotAlphanumeric));
    lemma_lowered_trimmed_end(text::trimmed_start(b, CharClass::NotAlphanumeric));
}

/// Punctuation before a text is taken off its start.
proof fn lemma_punctuation_before(left: Seq<char>, s: Seq<char>)
    requires
        punctuation(left),
    ensures
        text::trimmed_start(left + s, CharClass::NotAlphanumeric) == text::trimmed_start(
            s,
            CharClass::NotAlphanumeric,
        ),
    decreases left.len(),
{
    if left.len() == 0 {
        assert(left + s =~= s);
    } else {
        let rest = left.drop_first();
        assert((left + s).first() == left[0]);
        assert((left + s).drop_first() =~= rest + s);
        assert forall|i: int| 0 <= i < rest.len() implies !text::alphanumeric(
            #[trigger] rest[i],
        ) by {
            assert(rest[i] == left[i + 1]);
        }
        lemma_punctuation_before(rest, s);
    }
}

/// Punctuation after a text is taken off its end.
proof fn lemma_punctuation_after(s: Seq<char>, right: Seq<char>)
    requires
        punctuation(right),
    ensures
        text::trimmed_end(s + right, CharClass::NotAlphanumeric) == text::trimmed_end(
            s,
            CharClass::NotAlphanumeric,
        ),
    decreases right.len(),
{
    if right.len() == 0 {
        assert(s + right =~= s);
    } else {
        let rest = right.drop_last();
        assert((s + right).last() == right[right.len() - 1]);
        assert((s + right).drop_last() =~= s + rest);
        assert forall|i: int| 0 <= i < rest.len() implies !text::alphanumeric(
            #[trigger] rest[i],
        ) by {
            assert(rest[i] == right[i]);
        }
        lemma_punctuation_after(s, rest);
    }
}

/// Of punctuation nothing is left.
proof fn lemma_punctuation_is_trimmed(s: Seq<char>)
    requires
        punctuation(s),
    ensures
        text::trimmed_start(s, CharClass::NotAlphanumeric).len() == 0,
        text::trimmed(s, CharClass::NotAlphanumeric).len() == 0,
{
    lemma_punctuation_before(s, Seq::empty());
    assert(s + Seq::empty() =~= s);
}

/// Punctuation after a text leaves its start as it is, unless there is nothing else.
proof fn lemma_start_before_punctuation(s: Seq<char>, right: Seq<char>)
    requires
        punctuation(right),
    ensures
        text::trimmed_start(s + right, CharClass::NotAlphanumeric) == text::trimmed_start(
            s,
            CharClass::NotAlphanumeric,
        ) + right || punctuation(s),
    decreases s.len(),
{
    if s.len() > 0 {
        let rest = s.drop_first();
        assert((s + right).first() == s[0]);
        assert((s + right).drop_first() =~= rest + right);
        if !text::alphanumeric(s[0]) {
            lemma_start_before_punctuation(rest, right);
            if punctuation(rest) {
                assert forall|i: int| 0 <= i < s.len() implies !text::alphanumeric(
                    #[trigger] s[i],
                ) by {
                    if i > 0 {
                        assert(rest[i - 1] == s[i]);
                    }
                }
            }
        }
    }
}

/// Punctuation around a word does not matter for its comparison.
pub proof fn law_punctuation_does_not_matter(left: Seq<char>, word: Seq<char>, right: Seq<char>)
    requires
        punctuation(left),
        punctuation(right),
    ensures
        similarity::normalized(left + word + right) == similarity::normalized(word),
{
    let class = CharClass::NotAlphanumeric;
    assert(left + word + right =~= left + (word + right));
    lemma_punctuation_before(left, word + right);
    lemma_start_before_punctuation(word, right);
    if text::trimmed_start(word + right, class) == text::trimmed_start(word, class) + right {
        lemma_punctuation_after(text::trimmed_start(word, class), right);
    } else {
        let both = word + right;
        assert forall|i: int| 0 <= i < both.len() implies !text::alphanumeric(
            #[trigger] both[i],
        ) by {
            if i < word.len() {
                assert(both[i] == word[i]);
            } else {
                assert(both[i] == right[i - word.len()]);
            }
        }
        lemma_punctuation_is_trimmed(both);
        lemma_punctuation_is_trimmed(word);
        assert(text::trimmed(both, class) =~= text::trimmed(word, class));
    }
}

/// A word of small ASCII letters is compared as it is.
proof fn lemma_small_letters(word: Seq<char>)
    requires
        forall|i: int| 0 <= i < word.len() ==> 'a' <= #[trigger] word[i] <= 'z',
    ensures
        text::trimmed(word, CharClass::NotAlphanumeric) == word,
        text::lowercase(word) == word,
{
    if word.len() > 0 {
        assert(text::alphanumeric(word[0]));
        assert(text::alphanumeric(word[word.len() - 1]));
    }
    assert(is_ascii_chars(word));
    assert(text::ascii_lowered(word) =~= word);
}

/// Punctuation on its own and sounds of hesitation are not compared.
pub proof fn law_negligible_words_do_not_count(word: Seq<char>)
    requires
        negligible(word),
    ensures
        !similarity::counts(similarity::normalized(word)),
{
    let class = CharClass::NotAlphanumeric;
    if punctuation(word) {
        lemma_punctuation_is_trimmed(word);
        let none = text::ascii_lowered(text::trimmed(word, class));
        assert(is_ascii_chars(none));
    } else {
        let (left, core, right) = choose|left: Seq<char>, core: Seq<char>, right: Seq<char>|
            hesitation(word, left, core, right);
        let sound = text::ascii_lowered(core);
        law_punctuation_does_not_matter(left, core, right);
        reveal_strlit("uh");
        reveal_strlit("um");
        reveal_strlit("erm");
        reveal_strlit("uhh");
        reveal_strlit("umm");
        lemma_small_letters(sound);
        lemma_lowered_trimmed_start(core);
        lemma_lowered_trimmed_end(text::trimmed_start(core, class));
    }
}

/// The comparable words of two lists in a row.
proof fn lemma_comparable_concat(first: Seq<Seq<char>>, second: Seq<Seq<char>>)
    ensures
        similarity::comparable(first + second) == similarity::comparable(first)
            + similarity::comparable(second),
{
    let norm = |w: Seq<char>| similarity::normalized(w);
    assert((first + second).map_values(norm) =~= first.map_values(norm) + second.map_values(norm));
    Seq::filter_distributes_over_add(
        first.map_values(norm),
        second.map_values(norm),
        |w: Seq<char>| similarity::counts(w),
    );
}

/// One word more among those that are compared.
proof fn lemma_comparable_insert(words: Seq<Seq<char>>, place: int, word: Seq<char>)
    requires
        0 <= place <= words.len(),
    ensures
        similarity::comparable(words.insert(place, word)).to_multiset() == similarity::comparable(
            words,
        ).to_multiset().add(similarity::comparable(seq![word]).to_multiset()),
{
    let before = words.take(place);
    let after = words.skip(place);
    assert(words =~= before + after);
    assert(words.insert(place, word) =~= before + seq![word] + after);
    lemma_comparable_concat(before, after);
    lemma_comparable_concat(before, seq![word]);
    lemma_comparable_concat(before + seq![word], after);
    let (b, w, a) = (
        similarity::comparable(before),
        similarity::comparable(seq![word]),
        similarity::comparable(after),
    );
    lemma_multiset_commutative(b, a);
    lemma_multiset_commutative(b, w);
    lemma_multiset_commutative(b + w, a);
    assert(b.to_multiset().add(w.to_multiset()).add(a.to_multiset()) =~= b.to_multiset().add(
        a.to_multiset(),
    ).add(w.to_multiset()));
}

/// A word that does not count is not among those that are compared.
proof fn lemma_comparable_ignores(words: Seq<Seq<char>>, place: int, word: Seq<char>)
    requires
        0 <= place <= words.len(),
        !similarity::counts(similarity::normalized(word)),
    ensures
        similarity::comparable(words.insert(place, word)) == similarity::comparable(words),
{
    let before = words.take(place);
    let after = words.skip(place);
    let longer = before.push(word);
    let norm = |w: Seq<char>| similarity::normalized(w);
    assert(words =~= before + after);
    assert(words.insert(place, word) =~= longer + after);
    assert(longer.map_values(norm) =~= before.map_values(norm).push(similarity::normalized(word)));
    before.map_values(norm).lemma_filter_push(
        similarity::normalized(word),
        |w: Seq<char>| similarity::counts(w),
    );
    lemma_comparable_concat(before, after);
    lemma_comparable_concat(longer, after);
}

/// The same words in another order have the same words to compare.
proof fn lemma_comparable_order(a: Seq<Seq<char>>, b: Seq<Seq<char>>)
    requires
        a.to_multiset() == b.to_multiset(),
    ensures
        similarity::comparable(a).to_multiset() == similarity::comparable(b).to_multiset(),
    decreases a.len(),
{
    to_multiset_len(a);
    to_multiset_len(b);
    if a.len() == 0 {
        assert(a =~= b);
    } else {
        let word = a.last();
        let end = a.len() - 1;
        assert(a[end] == word);
        to_multiset_contains(a, word);
        to_multiset_contains(b, word);
        let place = choose|place: int| 0 <= place < b.len() && b[place] == word;
        to_multiset_remove(a, end);
        to_multiset_remove(b, place);
        lemma_comparable_order(a.remove(end), b.remove(place));
        lemma_comparable_insert(a.remove(end), end, word);
        lemma_comparable_insert(b.remove(place), place, word);
        assert(a.remove(end).insert(end, word) =~= a);
        assert(b.remove(place).insert(place, word) =~= b);
    }
}

/// Texts with the same words to compare, in whatever order, are judged alike.
pub proof fn law_order_does_not_matter(
    original: Seq<Seq<char>>,
    corrected: Seq<Seq<char>>,
    other_original: Seq<Seq<char>>,
    other_corrected: Seq<Seq<char>>,
    profile: CorrectionProfile,
)
    requires
        original.to_multiset() == other_original.to_multiset(),
        corrected.to_multiset() == other_corrected.to_multiset(),
    ensures
        similarity::similar(original, corrected, profile) == similarity::similar(
            other_original,
            other_corrected,
            profile,
        ),
{
    lemma_same_members(original, other_original);
    lemma_same_members(corrected, other_corrected);
}

/// Lists that differ in order only have the same length and the same members.
proof fn lemma_same_members(a: Seq<Seq<char>>, b: Seq<Seq<char>>)
    requires
        a.to_multiset() == b.to_multiset(),
    ensures
        a.len() == b.len(),
        a.to_set() == b.to_set(),
{
    to_multiset_len(a);
    to_multiset_len(b);
    assert forall|word: Seq<char>| a.contains(word) == b.contains(word) by {
        to_multiset_contains(a, word);
        to_multiset_contains(b, word);
    }
    assert(a.to_set() =~= b.to_set());
}

/// A change to a list of words that does not matter for its comparison.
pub enum WordEdit {
    /// Another case of ASCII letters in a word.
    Recase { place: int, word: Seq<char> },
    /// Punctuation around a word.
    Surround { place: int, left: Seq<char>, right: Seq<char> },
    /// A word without punctuation around it.
    Strip { place: int, left: Seq<char>, word: Seq<char>, right: Seq<char> },
    /// Another order of the words.
    Reorder(Seq<Seq<char>>),
    /// One more punctuation or sound of hesitation.
    Add { place: int, word: Seq<char> },
    /// One punctuation or sound of hesitation less.
    Drop { place: int },
}

impl WordEdit {
    /// Whether the change can be made to a list of words.
    pub open spec fn fits(self, words: Seq<Seq<char>>) -> bool {
        match self {
            WordEdit::Recase { place, word } => 0 <= place < words.len() && recased(
                words[place],
                word,
            ),
            WordEdit::Surround { place, left, right } => 0 <= place < words.len() && punctuation(
                left,
            ) && punctuation(right),
            WordEdit::Strip { place, left, word, right } => 0 <= place < words.len()
                && words[place] == left + word + right && punctuation(left) && punctuation(right),
            WordEdit::Reorder(other) => other.to_multiset() == words.to_multiset(),
            WordEdit::Add { place, word } => 0 <= place <= words.len() && negligible(word),
            WordEdit::Drop { place } => 0 <= place < words.len() && negligible(words[place]),
        }
    }

    /// The list of words after the change.
    pub open spec fn on(self, words: Seq<Seq<char>>) -> Seq<Seq<char>> {
        match self {
            WordEdit::Recase { place, word } => words.update(place, word),
            WordEdit::Surround { place, left, right } => words.update(
                place,
                left + words[place] + right,
            ),
            WordEdit::Strip { place, left, word, right } => words.update(place, word),
            WordEdit::Reorder(other) => other,
            WordEdit::Add { place, word } => words.insert(place, word),
            WordEdit::Drop { place } => words.remove(place),
        }
    }
}

/// A list of words after several changes.
pub open spec fn edited(words: Seq<Seq<char>>, edits: Seq<WordEdit>) -> Seq<Seq<char>>
    decreases edits.len(),
{
    if edits.len() == 0 {
        words
    } else {
        edits.last().on(edited(words, edits.drop_last()))
    }
}

/// Whether several changes can be made to a list of words, one after the other.
pub open spec fn all_fit(words: Seq<Seq<char>>, edits: Seq<WordEdit>) -> bool {
    forall|i: int| 0 <= i < edits.len() ==> (#[trigger] edits[i]).fits(edited(words, edits.take(i)))
}

/// A word in the place of one that is compared like it.
proof fn lemma_same_form(words: Seq<Seq<char>>, place: int, word: Seq<char>)
    requires
        0 <= place < words.len(),
        similarity::normalized(word) == similarity::normalized(words[place]),
    ensures
        similarity::comparable(words.update(place, word)) == similarity::comparable(words),
{
    let norm = |w: Seq<char>| similarity::normalized(w);
    assert(words.update(place, word).map_values(norm) =~= words.map_values(norm));
}

/// A change leaves the words that are compared, up to their order.
proof fn lemma_edit(words: Seq<Seq<char>>, edit: WordEdit)
    requires
        edit.fits(words),
    ensures
        similarity::comparable(edit.on(words)).to_multiset() == similarity::comparable(
            words,
        ).to_multiset(),
{
    match edit {
        WordEdit::Recase { place, word } => {
            law_case_does_not_matter(words[place], word);
            lemma_same_form(words, place, word);
        },
        WordEdit::Surround { place, left, right } => {
            law_punctuation_does_not_matter(left, words[place], right);
            lemma_same_form(words, place, left + words[place] + right);
        },
        WordEdit::Strip { place, left, word, right } => {
            law_punctuation_does_not_matter(left, word, right);
            lemma_same_form(words, place, word);
        },
        WordEdit::Reorder(other) => {
            lemma_comparable_order(other, words);
        },
        WordEdit::Add { place, word } => {
            law_negligible_words_do_not_count(word);
            lemma_comparable_ignores(words, place, word);
        },
        WordEdit::Drop { place } => {
            let less = words.remove(place);
            law_negligible_words_do_not_count(words[place]);
            lemma_comparable_ignores(less, place, words[place]);
            assert(less.insert(place, words[place]) =~= words);
        },
    }
}

/// Several changes leave the words that are compared, up to their order.
proof fn lemma_edits(words: Seq<Seq<char>>, edits: Seq<WordEdit>)
    requires
        all_fit(words, edits),
    ensures
        similarity::comparable(edited(words, edits)).to_multiset() == similarity::comparable(
            words,
        ).to_multiset(),
    decreases edits.len(),
{
    if edits.len() > 0 {
        let before = edits.drop_last();
        let end = edits.len() - 1;
        assert(edits.take(end) =~= before);
        assert forall|i: int| 0 <= i < before.len() implies (#[trigger] before[i]).fits(
            edited(words, before.take(i)),
        ) by {
            assert(edits[i] == before[i]);
            assert(edits.take(i) =~= before.take(i));
        }
        lemma_edits(words, before);
        assert(edits[end].fits(edited(words, before)));
        lemma_edit(edited(words, before), edits.last());
    }
}

/// Whether a correction is accepted does not depend on the case of ASCII letters, on
/// punctuation, on the order of words or on sounds of hesitation, neither in what was dictated
/// nor in the correction.
pub proof fn law_form_does_not_matter(
    original: Seq<char>,
    corrected: Seq<char>,
    other_original: Seq<char>,
    other_corrected: Seq<char>,
    original_edits: Seq<WordEdit>,
    corrected_edits: Seq<WordEdit>,
    profile: CorrectionProfile,
)
    requires
        all_fit(text::words(original), original_edits),
        all_fit(text::words(corrected), corrected_edits),
        text::words(other_original) == edited(text::words(original), original_edits),
        text::words(other_corrected) == edited(text::words(corrected), corrected_edits),
    ensures
        similarity::similar(
            similarity::compared_words(other_original),
            similarity::compared_words(other_corrected),
            profile,
        ) == similarity::similar(
            similarity::compared_words(original),
            similarity::compared_words(corrected),
            profile,
        ),
{
    lemma_edits(text::words(original), original_edits);
    lemma_edits(text::words(corrected), corrected_edits);
    law_order_does_not_matter(
        similarity::compared_words(other_original),
        similarity::compared_words(other_corrected),
        similarity::compared_words(original),
        similarity::compared_words(corrected),
        profile,
    );
}

/// What is accepted, over the numbers of words: in prose the correction has between 95 and 105
/// hundredths of the dictated words, in technical text between 90 and 110; of the distinct
/// dictated words 95 or 90 hundredths stay, and of three or fewer 70.
pub proof fn law_what_is_accepted(
    original: Seq<Seq<char>>,
    corrected: Seq<Seq<char>>,
    profile: CorrectionProfile,
)
    ensures
        ({
            let n = original.len();
            let m = corrected.len();
            let distinct = original.to_set().len();
            let kept = original.to_set().intersect(corrected.to_set()).len();
            similarity::similar(original, corrected, profile) <==> {
                &&& n > 0 && m > 0
                &&& profile == CorrectionProfile::Journal ==> 19 * n <= 20 * m <= 21 * n
                &&& profile == CorrectionProfile::Technical ==> 9 * n <= 10 * m <= 11 * n
                &&& distinct <= 3 ==> 7 * distinct <= 10 * kept
                &&& distinct > 3 && profile == CorrectionProfile::Journal ==> 19 * distinct <= 20
                    * kept
                &&& distinct > 3 && profile == CorrectionProfile::Technical ==> 9 * distinct <= 10
                    * kept
            }
        }),
{
}

/// As many words, among which all dictated ones are, are accepted, whatever their number;
/// without any of them a correction is rejected.
pub proof fn law_kept_words_are_accepted(
    original: Seq<Seq<char>>,
    corrected: Seq<Seq<char>>,
    profile: CorrectionProfile,
)
    requires
        original.len() > 0,
        original.len() == corrected.len(),
    ensures
        (forall|word: Seq<char>| #[trigger] original.contains(word) ==> corrected.contains(word))
            ==> similarity::similar(original, corrected, profile),
        (forall|word: Seq<char>| #[trigger] original.contains(word) ==> !corrected.contains(word))
            ==> !similarity::similar(original, corrected, profile),
{
    let distinct = original.to_set();
    let common = distinct.intersect(corrected.to_set());
    vstd::seq_lib::seq_to_set_is_finite(original);
    assert(original.contains(original[0]));
    assert(distinct.contains(original[0]));
    if forall|word: Seq<char>| #[trigger] original.contains(word) ==> corrected.contains(word) {
        assert(common =~= distinct);
    }
    if forall|word: Seq<char>| #[trigger] original.contains(word) ==> !corrected.contains(word) {
        assert(common =~= Set::empty());
        assert(distinct.len() > 0) by {
            if distinct.len() == 0 {
                assert(distinct =~= Set::empty());
            }
        }
    }
}

/// The words that are not compared are the empty one and the five sounds of hesitation.
pub proof fn law_which_words_count(word: Seq<char>)
    ensures
        similarity::counts(word) <==> word.len() > 0 && word != "uh"@ && word != "um"@ && word
            != "erm"@ && word != "uhh"@ && word != "umm"@,
{
}

/// A word of ASCII is compared by its characters in lower case, all of them, without punctuation
/// at its ends.
pub proof fn law_words_are_compared_by_all_characters(
    left: Seq<char>,
    core: Seq<char>,
    right: Seq<char>,
)
    requires
        punctuation(left),
        punctuation(right),
        is_ascii_chars(core),
        core.len() > 0,
        text::alphanumeric(core.first()),
        text::alphanumeric(core.last()),
    ensures
        similarity::normalized(left + core + right).len() == core.len(),
        forall|i: int|
            0 <= i < core.len() ==> #[trigger] similarity::normalized(left + core + right)[i]
                == text::ascii_lower(core[i]),
{
    let class = CharClass::NotAlphanumeric;
    let low = text::ascii_lowered(core);
    assert(crate::text_laws::all_of(left, class));
    assert(crate::text_laws::all_of(right, class));
    crate::text_laws::law_trim_leaves_the_core(left, core, right, class);
    assert(is_ascii_chars(low));
    assert(text::ascii_lowered(low) =~= low);
}

/// Whether a word is made of small letters and digits of ASCII and is no sound of hesitation.
pub open spec fn plain_word(word: Seq<char>) -> bool {
    &&& word.len() > 0
    &&& forall|i: int|
        0 <= i < word.len() ==> 'a' <= #[trigger] word[i] <= 'z' || '0' <= word[i] <= '9'
    &&& word != "uh"@ && word != "um"@ && word != "erm"@ && word != "uhh"@ && word != "umm"@
}

/// Plain words are all compared, as they are and in their order, whatever their number and
/// length.
pub proof fn law_plain_words_are_all_compared(words: Seq<Seq<char>>)
    requires
        forall|i: int| 0 <= i < words.len() ==> plain_word(#[trigger] words[i]),
    ensures
        similarity::comparable(words) == words,
    decreases words.len(),
{
    let norm = |w: Seq<char>| similarity::normalized(w);
    let used = |w: Seq<char>| similarity::counts(w);
    if words.len() == 0 {
        reveal(Seq::filter);
        assert(words.map_values(norm) =~= words);
        assert(words.filter(used) =~= words);
    } else {
        let less = words.drop_last();
        let last = words.last();
        assert forall|i: int| 0 <= i < less.len() implies plain_word(#[trigger] less[i]) by {
            assert(less[i] == words[i]);
        }
        law_plain_words_are_all_compared(less);
        assert(plain_word(words[words.len() - 1]));
        let none = Seq::<char>::empty();
        assert(is_ascii_chars(last));
        assert('a' <= last[0] <= 'z' || '0' <= last[0] <= '9');
        let end = last.len() - 1;
        assert('a' <= last[end] <= 'z' || '0' <= last[end] <= '9');
        law_words_are_compared_by_all_characters(none, last, none);
        assert(none + last + none =~= last);
        assert forall|i: int| 0 <= i < last.len() implies text::ascii_lower(last[i])
            == last[i] by {
            assert('a' <= last[i] <= 'z' || '0' <= last[i] <= '9');
        }
        assert(similarity::normalized(last) =~= last);
        assert(words.map_values(norm) =~= less.map_values(norm).push(last));
        less.map_values(norm).lemma_filter_push(last, used);
        assert(less.push(last) =~= words);
    }
}

} // verus!
