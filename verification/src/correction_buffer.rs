//! Words that wait for a correction: the current chunk and the whole paragraph.

use crate::text;
use crate::text::{
    byte_len, ends_with, join_texts, same_text, split_words, trim_text, CharClass,
};
use crate::text_laws;
use vstd::prelude::*;

verus! {

/// The number of words that completes a chunk.
pub const CHUNK_SIZE: usize = 6;

/// How eagerly and how strictly dictated text is corrected.
#[derive(Clone, Copy, Debug, PartialEq, Eq, Structural)]
pub enum CorrectionProfile {
    /// Prose: only whole paragraphs are corrected.
    Journal,
    /// Technical text: chunks are corrected while dictation goes on.
    Technical,
}

/// What a correction buffer holds.
#[verifier::ext_equal]
pub struct CorrectionModel {
    /// The words since the last chunk was taken.
    pub chunk: Seq<Seq<char>>,
    /// The words since the last paragraph was taken.
    pub paragraph: Seq<Seq<char>>,
    /// Whether chunks are collected at all.
    pub chunks: bool,
}

/// Whether a word closes a sentence.
pub open spec fn ends_sentence(word: Seq<char>) -> bool {
    let core = text::trimmed(word, CharClass::WhiteSpace);
    text::ends_in(core, '.') || text::ends_in(core, '?') || text::ends_in(core, '!')
}

/// Whether a word closes a part of a sentence.
pub open spec fn ends_clause(word: Seq<char>) -> bool {
    let core = text::trimmed(word, CharClass::WhiteSpace);
    text::ends_in(core, ',') || text::ends_in(core, ';')
}

impl CorrectionModel {
    /// An empty buffer with the settings of a profile.
    pub open spec fn start(profile: CorrectionProfile) -> CorrectionModel {
        CorrectionModel {
            chunk: Seq::empty(),
            paragraph: Seq::empty(),
            chunks: profile == CorrectionProfile::Technical,
        }
    }

    /// With one more word.
    pub open spec fn with_word(self, word: Seq<char>) -> CorrectionModel {
        CorrectionModel {
            chunk: if self.chunks {
                self.chunk.push(word)
            } else {
                self.chunk
            },
            paragraph: self.paragraph.push(word),
            ..self
        }
    }

    /// Without the words of the chunk.
    pub open spec fn without_chunk(self) -> CorrectionModel {
        CorrectionModel { chunk: Seq::empty(), ..self }
    }

    /// Without any words.
    pub open spec fn emptied(self) -> CorrectionModel {
        CorrectionModel { chunk: Seq::empty(), paragraph: Seq::empty(), ..self }
    }

    /// Whether the chunk is complete when `word` was its last word: at punctuation, or
    /// when it has enough words.
    pub open spec fn chunk_complete(self, word: Seq<char>) -> bool {
        self.chunks && (ends_sentence(word) || ends_clause(word) || self.chunk.len()
            >= CHUNK_SIZE)
    }

    /// Whether words stand in the paragraph right before the words of the chunk.
    pub open spec fn before_chunk(self, words: Seq<Seq<char>>) -> bool {
        let end = self.paragraph.len() - self.chunk.len();
        words.len() <= end && self.paragraph.subrange(end - words.len(), end) == words
    }

    /// The paragraph with the words of `corrected` in the place of those of `original`. The
    /// words of a chunk that was taken stand right before those of the chunk, which came
    /// later and stay. Where other words stand there, the last words, as many, are replaced,
    /// and a paragraph of fewer words keeps them all.
    pub open spec fn corrected(
        self,
        original: Seq<Seq<char>>,
        corrected: Seq<char>,
    ) -> CorrectionModel {
        let all = self.paragraph.len() as int;
        let later = self.chunk.len() as int;
        let count = original.len() as int;
        CorrectionModel {
            paragraph: if self.before_chunk(original) {
                self.paragraph.take(all - later - count) + text::words(corrected)
                    + self.paragraph.skip(all - later)
            } else if count <= all {
                self.paragraph.take(all - count) + text::words(corrected)
            } else {
                self.paragraph + text::words(corrected)
            },
            ..self
        }
    }
}

/// Tracks the words that were typed, for chunk and paragraph correction.
pub struct CorrectionBuffer {
    chunk_words: Vec<String>,
    chunk_char_count: u128,
    paragraph_words: Vec<String>,
    paragraph_char_count: u128,
    enable_chunk_correction: bool,
}

impl View for CorrectionBuffer {
    type V = CorrectionModel;

    closed spec fn view(&self) -> CorrectionModel {
        CorrectionModel {
            chunk: text::texts(self.chunk_words@),
            paragraph: text::texts(self.paragraph_words@),
            chunks: self.enable_chunk_correction,
        }
    }
}

impl CorrectionBuffer {
    /// The counts are the lengths in bytes of the words joined by single spaces, and
    /// a buffer that collects no chunks has none.
    pub closed spec fn wf(&self) -> bool {
        &&& self.chunk_char_count == text::bytes(text::sentence(self@.chunk))
        &&& self.paragraph_char_count == text::bytes(text::sentence(self@.paragraph))
        &&& all_countable(self@.chunk)
        &&& all_countable(self@.paragraph)
        &&& !self.enable_chunk_correction ==> self.chunk_words@.len() == 0
    }

    /// Without chunk correction there is no chunk.
    pub proof fn law_no_chunk_without_chunk_correction(&self)
        requires
            self.wf(),
        ensures
            !self@.chunks ==> self@.chunk.len() == 0,
    {
    }

    /// An empty buffer with the settings of a profile.
    pub fn new(profile: CorrectionProfile) -> (r: Self)
        ensures
            r.wf(),
            r@ == CorrectionModel::start(profile),
    {
        let r = CorrectionBuffer {
            chunk_words: Vec::new(),
            chunk_char_count: 0,
            paragraph_words: Vec::new(),
            paragraph_char_count: 0,
            enable_chunk_correction: profile == CorrectionProfile::Technical,
        };
        assert(r@ =~= CorrectionModel::start(profile));
        r
    }

    /// Adds a word to the paragraph, and to the chunk where chunks are collected.
    pub fn add_word(&mut self, word: &str)
        requires
            old(self).wf(),
        ensures
            final(self).wf(),
            final(self)@ == old(self)@.with_word(word@),
    {
        let more: u128 = byte_len(word) as u128;
        proof {
            text::lemma_sentence_push(self@.chunk, word@);
            text::lemma_sentence_push(self@.paragraph, word@);
            lemma_room_for_word(self@.chunk, word@, self.chunk_words.len());
            lemma_room_for_word(self@.paragraph, word@, self.paragraph_words.len());
        }
        if self.enable_chunk_correction {
            if self.chunk_words.len() > 0 {
                self.chunk_char_count += 1;
            }
            self.chunk_char_count += more;
            let owned = word.to_owned();
            proof {
                text::lemma_texts_push(self.chunk_words@, owned);
            }
            self.chunk_words.push(owned);
        }
        if self.paragraph_words.len() > 0 {
            self.paragraph_char_count += 1;
        }
        self.paragraph_char_count += more;
        let owned = word.to_owned();
        proof {
            text::lemma_texts_push(self.paragraph_words@, owned);
        }
        self.paragraph_words.push(owned);
        assert(self@ =~= old(self)@.with_word(word@));
    }

    /// Takes the chunk: its text, its number of words, its length in bytes and its
    /// words. The paragraph stays.
    pub fn take_chunk(&mut self) -> (r: (String, usize, usize, Vec<String>))
        requires
            old(self).wf(),
        ensures
            final(self).wf(),
            final(self)@ == old(self)@.without_chunk(),
            r.0@ == text::sentence(old(self)@.chunk),
            r.1 == old(self)@.chunk.len(),
            r.2 == capped(text::bytes(r.0@)),
            text::texts(r.3@) == old(self)@.chunk,
            text_laws::all_words(old(self)@.chunk) ==> text::words(r.0@) == old(self)@.chunk,
    {
        let joined = join_texts(&self.chunk_words, " ");
        proof {
            reveal_strlit(" ");
            assert(" "@ =~= seq![' ']);
            if text_laws::all_words(self@.chunk) {
                text_laws::law_words_of_sentence(self@.chunk);
            }
        }
        let word_count: usize = self.chunk_words.len();
        let char_count: usize = cap(self.chunk_char_count);
        let mut words: Vec<String> = Vec::new();
        std::mem::swap(&mut words, &mut self.chunk_words);
        self.chunk_char_count = 0;
        assert(self@ =~= old(self)@.without_chunk());
        (joined, word_count, char_count, words)
    }

    /// Takes the paragraph: its text, its number of words and its length in bytes. The
    /// chunk goes with it.
    pub fn take_paragraph(&mut self) -> (r: (String, usize, usize))
        requires
            old(self).wf(),
        ensures
            final(self).wf(),
            final(self)@ == old(self)@.emptied(),
            r.0@ == text::sentence(old(self)@.paragraph),
            r.1 == old(self)@.paragraph.len(),
            r.2 == capped(text::bytes(r.0@)),
            text_laws::all_words(old(self)@.paragraph) ==> text::words(r.0@)
                == old(self)@.paragraph,
    {
        let joined = join_texts(&self.paragraph_words, " ");
        proof {
            reveal_strlit(" ");
            assert(" "@ =~= seq![' ']);
            if text_laws::all_words(self@.paragraph) {
                text_laws::law_words_of_sentence(self@.paragraph);
            }
        }
        let word_count: usize = self.paragraph_words.len();
        let char_count: usize = cap(self.paragraph_char_count);
        self.paragraph_words.clear();
        self.paragraph_char_count = 0;
        self.chunk_words.clear();
        self.chunk_char_count = 0;
        assert(self@ =~= old(self)@.emptied());
        (joined, word_count, char_count)
    }

    /// Whether the chunk should be corrected now that `word` was added.
    pub fn should_correct_chunk(&self, word: &str) -> (r: bool)
        ensures
            r == self@.chunk_complete(word@),
    {
        if !self.enable_chunk_correction {
            return false;
        }
        let core = trim_text(word, CharClass::WhiteSpace);
        let core = core.as_str();
        let sentence = ends_with(core, '.') || ends_with(core, '?') || ends_with(core, '!');
        let clause = ends_with(core, ',') || ends_with(core, ';');
        sentence || clause || self.chunk_words.len() >= CHUNK_SIZE
    }

    /// The number of words in the chunk.
    pub fn chunk_len(&self) -> (r: usize)
        requires
            self.wf(),
        ensures
            r == self@.chunk.len(),
    {
        if self.enable_chunk_correction {
            self.chunk_words.len()
        } else {
            0
        }
    }

    /// The number of words in the paragraph.
    pub fn paragraph_len(&self) -> (r: usize)
        ensures
            r == self@.paragraph.len(),
    {
        self.paragraph_words.len()
    }

    /// Forgets the chunk.
    pub fn reset_chunk(&mut self)
        requires
            old(self).wf(),
        ensures
            final(self).wf(),
            final(self)@ == old(self)@.without_chunk(),
    {
        self.chunk_words.clear();
        self.chunk_char_count = 0;
        assert(self@ =~= old(self)@.without_chunk());
    }

    /// Replaces the words of a chunk by the words of its correction, so that the paragraph is
    /// what stands on the screen. Words that came since the chunk was taken stay behind them.
    pub fn apply_chunk_correction(&mut self, original_words: &[String], corrected: &str)
        requires
            old(self).wf(),
        ensures
            final(self).wf(),
            final(self)@ == old(self)@.corrected(text::texts(original_words@), corrected@),
    {
        let len: usize = self.paragraph_words.len();
        let later: usize = self.chunk_words.len();
        let count: usize = original_words.len();
        let mut added = split_words(corrected);
        if self.stand_before_chunk(original_words) {
            let mut rest = self.paragraph_words.split_off(len - later);
            self.paragraph_words.truncate(len - later - count);
            self.paragraph_words.append(&mut added);
            self.paragraph_words.append(&mut rest);
        } else {
            if count <= len {
                self.paragraph_words.truncate(len - count);
            }
            self.paragraph_words.append(&mut added);
        }
        self.paragraph_char_count = sentence_len(&self.paragraph_words);
        assert(self@ =~= old(self)@.corrected(text::texts(original_words@), corrected@));
    }

    /// Tests whether words stand in the paragraph right before the words of the chunk.
    fn stand_before_chunk(&self, words: &[String]) -> (r: bool)
        ensures
            r == self@.before_chunk(text::texts(words@)),
    {
        let len: usize = self.paragraph_words.len();
        let later: usize = self.chunk_words.len();
        if later > len || words.len() > len - later {
            return false;
        }
        let end: usize = len - later;
        let start: usize = end - words.len();
        let ghost stretch = self@.paragraph.subrange(start as int, end as int);
        let mut i: usize = 0;
        while i < words.len()
            invariant
                i <= words.len(),
                start + words.len() == end,
                end == self.paragraph_words@.len() - self.chunk_words@.len(),
                stretch == self@.paragraph.subrange(start as int, end as int),
                forall|k: int| 0 <= k < i ==> stretch[k] == text::texts(words@)[k],
            decreases words.len() - i,
        {
            assert(stretch[i as int] == self.paragraph_words@[start + i]@);
            assert(text::texts(words@)[i as int] == words@[i as int]@);
            if !same_text(self.paragraph_words[start + i].as_str(), words[i].as_str()) {
                return false;
            }
            i += 1;
        }
        assert(stretch =~= text::texts(words@));
        true
    }
}

/// A number of bytes or words, or the largest number of a count if it is larger.
pub open spec fn capped(number: nat) -> nat {
    if number <= usize::MAX {
        number
    } else {
        usize::MAX as nat
    }
}

/// A number of bytes, or the largest number of a count if it is larger.
fn cap(bytes: u128) -> (r: usize)
    ensures
        r == capped(bytes as nat),
{
    if bytes <= usize::MAX as u128 {
        bytes as usize
    } else {
        usize::MAX
    }
}

/// Whether the length in bytes of every word is a count.
spec fn all_countable(parts: Seq<Seq<char>>) -> bool {
    forall|i: int| 0 <= i < parts.len() ==> text::bytes(#[trigger] parts[i]) <= usize::MAX
}

/// The length of a sentence is bounded by the number of its words.
proof fn lemma_sentence_bound(parts: Seq<Seq<char>>)
    requires
        all_countable(parts),
        parts.len() > 0,
    ensures
        text::bytes(text::sentence(parts)) + 1 <= parts.len() * (usize::MAX + 1),
    decreases parts.len(),
{
    let before = parts.drop_last();
    let word = parts.last();
    assert(before.push(word) =~= parts);
    text::lemma_sentence_push(before, word);
    assert(text::bytes(parts[parts.len() - 1]) <= usize::MAX);
    if before.len() > 0 {
        assert forall|i: int| 0 <= i < before.len() implies text::bytes(#[trigger] before[i])
            <= usize::MAX by {
            assert(before[i] == parts[i]);
        }
        lemma_sentence_bound(before);
        let n = before.len() as int;
        let m = usize::MAX + 1;
        assert((n + 1) * m == n * m + m) by (nonlinear_arith);
    } else {
        assert(parts.len() * (usize::MAX + 1) == usize::MAX + 1) by (nonlinear_arith)
            requires
                parts.len() == 1,
        ;
    }
}

/// The length of a sentence with one more word can be counted.
proof fn lemma_room_for_word(parts: Seq<Seq<char>>, word: Seq<char>, count: usize)
    requires
        all_countable(parts),
        parts.len() == count,
        text::bytes(word) <= usize::MAX,
    ensures
        text::bytes(text::sentence(parts)) + 1 + text::bytes(word) <= u128::MAX,
        text::bytes(text::sentence(parts.push(word))) <= u128::MAX,
        all_countable(parts.push(word)),
{
    text::lemma_sentence_push(parts, word);
    if parts.len() == 0 {
        assert(text::sentence(parts) =~= Seq::empty());
        assert(text::bytes(Seq::<char>::empty()) == 0);
    } else {
        lemma_sentence_bound(parts);
        let n = parts.len() as int;
        let m = usize::MAX as int;
        assert(n * (m + 1) + m <= u128::MAX) by (nonlinear_arith)
            requires
                0 <= n <= m,
                0 <= m <= 0xffff_ffff_ffff_ffff,
        ;
    }
}

/// The length in bytes of the words joined by single spaces.
fn sentence_len(words: &Vec<String>) -> (r: u128)
    ensures
        r == text::bytes(text::sentence(text::texts(words@))),
        all_countable(text::texts(words@)),
{
    let ghost parts = text::texts(words@);
    let mut total: u128 = 0;
    let mut i: usize = 0;
    assert(parts.take(0) =~= Seq::empty());
    assert(text::bytes(Seq::<char>::empty()) == 0);
    while i < words.len()
        invariant
            i <= words.len(),
            parts == text::texts(words@),
            total == text::bytes(text::sentence(parts.take(i as int))),
            all_countable(parts.take(i as int)),
        decreases words.len() - i,
    {
        let more: u128 = byte_len(words[i].as_str()) as u128;
        let gap: u128 = if i > 0 { 1 } else { 0 };
        proof {
            assert(parts.take(i + 1) =~= parts.take(i as int).push(words@[i as int]@));
            text::lemma_sentence_push(parts.take(i as int), words@[i as int]@);
            lemma_room_for_word(parts.take(i as int), words@[i as int]@, i);
        }
        total = total + gap + more;
        i += 1;
    }
    assert(parts.take(parts.len() as int) =~= parts);
    total
}

} // verus!
