//! Text primitives: words, joining, trimming, splitting and comparing.
//!
//! Text is modelled as `Seq<char>` and a list of words as `Seq<Seq<char>>`.

use vstd::prelude::*;
use vstd::string::*;
use vstd::utf8::*;

verus! {

/// The views of a list of strings.
pub open spec fn texts(parts: Seq<String>) -> Seq<Seq<char>> {
    parts.map_values(|part: String| part@)
}

/// The view of an optional string.
pub open spec fn option_text(part: Option<String>) -> Option<Seq<char>> {
    match part {
        Some(part) => Some(part@),
        None => None,
    }
}

/// The characters with the Unicode property `White_Space`.
pub open spec fn white_space(c: char) -> bool {
    let n = c as u32;
    ||| 0x09 <= n <= 0x0d
    ||| n == 0x20
    ||| n == 0x85
    ||| n == 0xa0
    ||| n == 0x1680
    ||| 0x2000 <= n <= 0x200a
    ||| n == 0x2028
    ||| n == 0x2029
    ||| n == 0x202f
    ||| n == 0x205f
    ||| n == 0x3000
}

/// `char::is_whitespace`: whether the character has the Unicode property
/// `White_Space`, whose members `white_space` lists.
pub assume_specification[ char::is_whitespace ](c: char) -> (r: bool)
    ensures
        r == white_space(c),
;

/// What `char::is_alphanumeric` answers for a character beyond ASCII.
pub uninterp spec fn unicode_alphanumeric(c: char) -> bool;

/// The letters and digits of ASCII.
pub open spec fn ascii_alphanumeric(c: char) -> bool {
    'a' <= c <= 'z' || 'A' <= c <= 'Z' || '0' <= c <= '9'
}

/// Whether a character is a letter or a digit.
pub open spec fn alphanumeric(c: char) -> bool {
    if (c as u32) < 0x80 {
        ascii_alphanumeric(c)
    } else {
        unicode_alphanumeric(c)
    }
}

/// `char::is_alphanumeric`: among the ASCII characters the answer is yes for letters and
/// digits only; beyond ASCII it depends on the character alone.
pub assume_specification[ char::is_alphanumeric ](c: char) -> (r: bool)
    ensures
        (c as u32) < 0x80 ==> r == ascii_alphanumeric(c),
        (c as u32) >= 0x80 ==> r == unicode_alphanumeric(c),
;

/// The lower-case letter of an ASCII capital; any other character unchanged.
pub open spec fn ascii_lower(c: char) -> char {
    if 'A' <= c <= 'Z' {
        ((c as u32) + 0x20) as char
    } else {
        c
    }
}

/// A text with the capitals of ASCII replaced by their small letters.
pub open spec fn ascii_lowered(s: Seq<char>) -> Seq<char> {
    s.map_values(|c: char| ascii_lower(c))
}

/// What `str::to_lowercase` returns for a text that is not ASCII.
pub uninterp spec fn unicode_lowercase(s: Seq<char>) -> Seq<char>;

/// A text in lower case.
pub open spec fn lowercase(s: Seq<char>) -> Seq<char> {
    if is_ascii_chars(s) {
        ascii_lowered(s)
    } else {
        unicode_lowercase(s)
    }
}

/// `str::to_lowercase`: on ASCII text each capital is replaced by its small letter and
/// nothing else changes; on other text the result depends on the text alone.
pub assume_specification[ str::to_lowercase ](s: &str) -> (r: String)
    ensures
        is_ascii_chars(s@) ==> r@ == ascii_lowered(s@),
        !is_ascii_chars(s@) ==> r@ == unicode_lowercase(s@),
;

/// `String::push`: appends one character.
pub assume_specification[ String::push ](s: &mut String, c: char)
    ensures
        final(s)@ == old(s)@.push(c),
;

/// The parts in order, with the separator between neighbours.
pub open spec fn join(parts: Seq<Seq<char>>, sep: Seq<char>) -> Seq<char>
    decreases parts.len(),
{
    if parts.len() == 0 {
        Seq::empty()
    } else {
        let head = join(parts.drop_last(), sep);
        if parts.len() == 1 {
            parts.last()
        } else {
            head + sep + parts.last()
        }
    }
}

/// The words joined by single spaces.
pub open spec fn sentence(parts: Seq<Seq<char>>) -> Seq<char> {
    join(parts, seq![' '])
}

/// The same list with one more character at the end of its last part.
pub open spec fn extend_last(parts: Seq<Seq<char>>, c: char) -> Seq<Seq<char>> {
    parts.drop_last().push(parts.last().push(c))
}

/// The maximal runs of characters that are not white space, in order.
pub open spec fn words(s: Seq<char>) -> Seq<Seq<char>>
    decreases s.len(),
{
    if s.len() == 0 {
        Seq::empty()
    } else {
        let before = words(s.drop_last());
        if white_space(s.last()) {
            before
        } else if s.len() == 1 || white_space(s[s.len() - 2]) {
            before.push(seq![s.last()])
        } else {
            extend_last(before, s.last())
        }
    }
}

/// The stretches between the occurrences of `sep`, in order: one more than there
/// are occurrences.
pub open spec fn split(s: Seq<char>, sep: char) -> Seq<Seq<char>>
    decreases s.len(),
{
    if s.len() == 0 {
        seq![Seq::empty()]
    } else {
        let before = split(s.drop_last(), sep);
        if s.last() == sep {
            before.push(Seq::empty())
        } else {
            extend_last(before, s.last())
        }
    }
}

/// The characters that a trim takes off both ends of a text.
#[derive(Clone, Copy)]
pub enum CharClass {
    /// Characters with the Unicode property `White_Space`.
    WhiteSpace,
    /// The double quotation mark of ASCII.
    Quote,
    /// Everything but letters and digits.
    NotAlphanumeric,
}

impl CharClass {
    /// Membership in the class.
    pub open spec fn holds(self, c: char) -> bool {
        match self {
            CharClass::WhiteSpace => white_space(c),
            CharClass::Quote => c == '"',
            CharClass::NotAlphanumeric => !alphanumeric(c),
        }
    }

    /// Tests for membership in the class.
    pub fn contains(&self, c: char) -> (r: bool)
        ensures
            r == self.holds(c),
    {
        match self {
            CharClass::WhiteSpace => c.is_whitespace(),
            CharClass::Quote => c == '"',
            CharClass::NotAlphanumeric => !c.is_alphanumeric(),
        }
    }
}

/// The text without its longest prefix of members of the class.
pub open spec fn trimmed_start(s: Seq<char>, class: CharClass) -> Seq<char>
    decreases s.len(),
{
    if s.len() > 0 && class.holds(s.first()) {
        trimmed_start(s.drop_first(), class)
    } else {
        s
    }
}

/// The text without its longest suffix of members of the class.
pub open spec fn trimmed_end(s: Seq<char>, class: CharClass) -> Seq<char>
    decreases s.len(),
{
    if s.len() > 0 && class.holds(s.last()) {
        trimmed_end(s.drop_last(), class)
    } else {
        s
    }
}

/// The text with members of the class taken off both ends.
pub open spec fn trimmed(s: Seq<char>, class: CharClass) -> Seq<char> {
    trimmed_end(trimmed_start(s, class), class)
}

/// Whether the text is not empty and `c` is its last character.
pub open spec fn ends_in(s: Seq<char>, c: char) -> bool {
    s.len() > 0 && s.last() == c
}

/// The number of bytes of a text in UTF-8.
pub open spec fn bytes(s: Seq<char>) -> nat {
    encode_utf8(s).len()
}

/// The decimal digit of a number below ten.
pub open spec fn digit(n: nat) -> char {
    (('0' as u32) + n) as char
}

/// The decimal notation of a number, without leading zeros.
pub open spec fn decimal(n: nat) -> Seq<char>
    decreases n,
{
    if n < 10 {
        seq![digit(n)]
    } else {
        decimal(n / 10).push(digit(n % 10))
    }
}

/// The characters of a text.
pub(crate) fn char_list(s: &str) -> (r: Vec<char>)
    ensures
        r@ == s@,
{
    let mut list: Vec<char> = Vec::new();
    for c in iter: s.chars()
        invariant
            list@ == s@.take(iter.index()),
            iter.seq() == s@,
    {
        list.push(c);
        assert(s@.take(iter.index() + 1) =~= s@.take(iter.index()).push(c));
    }
    assert(s@.take(s@.len() as int) =~= s@);
    list
}

/// The text made of the characters from `from` up to `to`, exclusive.
pub(crate) fn text_of(list: &Vec<char>, from: usize, to: usize) -> (r: String)
    requires
        from <= to <= list@.len(),
    ensures
        r@ == list@.subrange(from as int, to as int),
{
    let mut out = String::new();
    let mut i: usize = from;
    while i < to
        invariant
            from <= i <= to <= list@.len(),
            out@ == list@.subrange(from as int, i as int),
        decreases to - i,
    {
        out.push(list[i]);
        assert(list@.subrange(from as int, i + 1) =~= list@.subrange(from as int, i as int).push(
            list@[i as int],
        ));
        i += 1;
    }
    out
}

/// A list of strings with one more at the end.
pub proof fn lemma_texts_push(parts: Seq<String>, part: String)
    ensures
        texts(parts.push(part)) == texts(parts).push(part@),
{
    assert(texts(parts.push(part)) =~= texts(parts).push(part@));
}

/// The encoding of two texts in a row is the two encodings in a row.
pub proof fn lemma_encode_concat(a: Seq<char>, b: Seq<char>)
    ensures
        encode_utf8(a + b) == encode_utf8(a) + encode_utf8(b),
    decreases a.len(),
{
    if a.len() == 0 {
        assert(a + b =~= b);
        assert(encode_utf8(a) =~= Seq::empty());
        assert(encode_utf8(a) + encode_utf8(b) =~= encode_utf8(b));
    } else {
        let rest = a.drop_first();
        assert((a + b).drop_first() =~= rest + b);
        assert((a + b)[0] == a[0]);
        lemma_encode_concat(rest, b);
        assert(encode_utf8(a + b) =~= encode_utf8(a) + encode_utf8(b));
    }
}

/// The length in bytes of two texts in a row is the sum of their lengths.
pub proof fn lemma_bytes_concat(a: Seq<char>, b: Seq<char>)
    ensures
        bytes(a + b) == bytes(a) + bytes(b),
{
    lemma_encode_concat(a, b);
}

/// A space takes one byte.
pub proof fn lemma_bytes_space()
    ensures
        bytes(seq![' ']) == 1,
{
    let s = seq![' '];
    assert(is_ascii_chars(s));
    is_ascii_chars_encode_utf8(s);
}

/// One more word at the end of a sentence.
pub proof fn lemma_sentence_push(parts: Seq<Seq<char>>, word: Seq<char>)
    ensures
        sentence(parts.push(word)) == if parts.len() == 0 {
            word
        } else {
            sentence(parts) + seq![' '] + word
        },
        bytes(sentence(parts.push(word))) == if parts.len() == 0 {
            bytes(word)
        } else {
            bytes(sentence(parts)) + 1 + bytes(word)
        },
{
    assert(parts.push(word).drop_last() =~= parts);
    if parts.len() > 0 {
        lemma_bytes_space();
        lemma_bytes_concat(sentence(parts), seq![' ']);
        lemma_bytes_concat(sentence(parts) + seq![' '], word);
    }
}

/// Compares two texts.
pub fn same_text(a: &str, b: &str) -> (r: bool)
    ensures
        r == (a@ == b@),
{
    let x = a.as_bytes();
    let y = b.as_bytes();
    if x.len() != y.len() {
        return false;
    }
    let mut i: usize = 0;
    while i < x.len()
        invariant
            i <= x.len(),
            x.len() == y.len(),
            x@ == a.spec_bytes(),
            y@ == b.spec_bytes(),
            x@.take(i as int) == y@.take(i as int),
        decreases x.len() - i,
    {
        if x[i] != y[i] {
            assert(x@[i as int] != y@[i as int]);
            return false;
        }
        assert(x@.take(i + 1) =~= x@.take(i as int).push(x@[i as int]));
        assert(y@.take(i + 1) =~= y@.take(i as int).push(y@[i as int]));
        i += 1;
    }
    proof {
        assert(x@.take(x@.len() as int) =~= x@);
        assert(y@.take(y@.len() as int) =~= y@);
        encode_utf8_decode_utf8(a@);
        encode_utf8_decode_utf8(b@);
    }
    true
}

/// The small letter of an ASCII capital; any other character unchanged.
pub(crate) fn to_ascii_lower(ch: char) -> (r: char)
    ensures
        r == ascii_lower(ch),
{
    if 'A' <= ch && ch <= 'Z' {
        (ch as u8 + 0x20) as char
    } else {
        ch
    }
}

/// A text with the capitals of ASCII replaced by their small letters.
pub fn lower_ascii(s: &str) -> (r: String)
    ensures
        r@ == ascii_lowered(s@),
{
    let list = char_list(s);
    let mut out = String::new();
    let mut i: usize = 0;
    assert(ascii_lowered(list@.take(0)) =~= Seq::empty());
    while i < list.len()
        invariant
            i <= list.len(),
            out@ == ascii_lowered(list@.take(i as int)),
        decreases list.len() - i,
    {
        out.push(to_ascii_lower(list[i]));
        assert(ascii_lowered(list@.take(i + 1)) =~= ascii_lowered(list@.take(i as int)).push(
            ascii_lower(list@[i as int]),
        ));
        i += 1;
    }
    assert(list@.take(list@.len() as int) =~= list@);
    out
}

/// The number of bytes of a text in UTF-8.
pub fn byte_len(s: &str) -> (r: usize)
    ensures
        r == encode_utf8(s@).len(),
{
    s.as_bytes().len()
}

/// Whether `c` is the last character of the text.
pub fn ends_with(s: &str, c: char) -> (r: bool)
    ensures
        r == ends_in(s@, c),
{
    let list = char_list(s);
    list.len() > 0 && list[list.len() - 1] == c
}

/// Joins the parts with the separator between neighbours.
pub fn join_texts(parts: &Vec<String>, sep: &str) -> (r: String)
    ensures
        r@ == join(texts(parts@), sep@),
{
    let mut out = String::new();
    let mut i: usize = 0;
    while i < parts.len()
        invariant
            i <= parts.len(),
            out@ == join(texts(parts@).take(i as int), sep@),
        decreases parts.len() - i,
    {
        if i > 0 {
            out.append(sep);
        }
        out.append(parts[i].as_str());
        proof {
            let now = texts(parts@).take(i + 1);
            assert(now.drop_last() =~= texts(parts@).take(i as int));
            assert(now.last() == parts@[i as int]@);
        }
        i += 1;
    }
    assert(texts(parts@).take(parts@.len() as int) =~= texts(parts@));
    out
}

/// The words of a text: its maximal runs of characters that are not white space.
pub fn split_words(s: &str) -> (r: Vec<String>)
    ensures
        texts(r@) == words(s@),
{
    let list = char_list(s);
    let mut done: Vec<String> = Vec::new();
    let mut current = String::new();
    let mut in_word = false;
    let mut i: usize = 0;
    assert(texts(done@) =~= Seq::empty());
    while i < list.len()
        invariant
            i <= list.len(),
            in_word == (i > 0 && !white_space(list@[i - 1])),
            words(list@.take(i as int)) == if in_word {
                texts(done@).push(current@)
            } else {
                texts(done@)
            },
            !in_word ==> current@.len() == 0,
        decreases list.len() - i,
    {
        let c = list[i];
        proof {
            let now = list@.take(i + 1);
            assert(now.drop_last() =~= list@.take(i as int));
            assert(now.last() == c);
            assert(i > 0 ==> now[now.len() - 2] == list@[i - 1]);
        }
        if c.is_whitespace() {
            if in_word {
                proof {
                    lemma_texts_push(done@, current);
                }
                done.push(current);
                current = String::new();
                in_word = false;
            }
        } else {
            proof {
                if in_word {
                    let before = texts(done@).push(current@);
                    assert(before.drop_last() =~= texts(done@));
                } else {
                    assert(current@.push(c) =~= seq![c]);
                }
            }
            current.push(c);
            in_word = true;
        }
        i += 1;
    }
    assert(list@.take(list@.len() as int) =~= s@);
    if in_word {
        proof {
            lemma_texts_push(done@, current);
        }
        done.push(current);
    }
    done
}

/// The stretches of a text between the occurrences of a separator.
pub fn split_at(s: &str, sep: char) -> (r: Vec<String>)
    ensures
        texts(r@) == split(s@, sep),
        r@.len() > 0,
{
    let list = char_list(s);
    let mut done: Vec<String> = Vec::new();
    let mut current = String::new();
    let mut i: usize = 0;
    assert(texts(done@).push(current@) =~= seq![Seq::<char>::empty()]);
    while i < list.len()
        invariant
            i <= list.len(),
            split(list@.take(i as int), sep) == texts(done@).push(current@),
        decreases list.len() - i,
    {
        let c = list[i];
        proof {
            let now = list@.take(i + 1);
            assert(now.drop_last() =~= list@.take(i as int));
            assert(now.last() == c);
        }
        if c == sep {
            proof {
                lemma_texts_push(done@, current);
            }
            done.push(current);
            current = String::new();
        } else {
            assert(texts(done@).push(current@).drop_last() =~= texts(done@));
            current.push(c);
        }
        i += 1;
    }
    assert(list@.take(list@.len() as int) =~= s@);
    proof {
        lemma_texts_push(done@, current);
    }
    done.push(current);
    done
}

/// Takes the members of the class off both ends of a text.
pub fn trim_text(s: &str, class: CharClass) -> (r: String)
    ensures
        r@ == trimmed(s@, class),
{
    let list = char_list(s);
    let mut from: usize = 0;
    let mut to: usize = list.len();
    assert(list@.skip(0) =~= s@);
    while from < to && class.contains(list[from])
        invariant
            from <= to,
            to == list@.len(),
            list@ == s@,
            trimmed_start(s@, class) == trimmed_start(list@.skip(from as int), class),
        decreases to - from,
    {
        assert(list@.skip(from as int).drop_first() =~= list@.skip(from + 1));
        from += 1;
    }
    let ghost rest = list@.skip(from as int);
    assert(trimmed_start(s@, class) == rest);
    assert(list@.subrange(from as int, to as int) =~= rest);
    while from < to && class.contains(list[to - 1])
        invariant
            from <= to <= list@.len(),
            trimmed_end(rest, class) == trimmed_end(
                list@.subrange(from as int, to as int),
                class,
            ),
        decreases to,
    {
        assert(list@.subrange(from as int, to as int).drop_last() =~= list@.subrange(
            from as int,
            to - 1,
        ));
        to -= 1;
    }
    text_of(&list, from, to)
}

/// The decimal notation of a number.
pub fn decimal_text(n: usize) -> (r: String)
    ensures
        r@ == decimal(n as nat),
    decreases n,
{
    let last = digit_char((n % 10) as u8);
    if n < 10 {
        let mut out = String::new();
        out.push(last);
        assert(out@ =~= seq![last]);
        out
    } else {
        let mut out = decimal_text(n / 10);
        out.push(last);
        out
    }
}

/// The decimal digit of a number below ten.
fn digit_char(n: u8) -> (r: char)
    requires
        n < 10,
    ensures
        r == digit(n as nat),
{
    (0x30u8 + n) as char
}

} // verus!
