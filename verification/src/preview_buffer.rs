//! State of buffer-first dictation.
//!
//! Words are collected as they arrive, sections that were pasted are kept, and
//! corrections are applied to the active part.

use crate::text;
use crate::text::{join_texts, split_words};
use vstd::prelude::*;

verus! {

/// A section of text to display in the overlay.
#[derive(Debug, Clone)]
pub struct DisplaySection {
    pub text: String,
    pub style: DisplayStyle,
}

/// Visual style of a display section.
#[derive(Debug, Clone, Copy, PartialEq, Eq, Structural)]
pub enum DisplayStyle {
    /// Already pasted: shown dimmed.
    Committed,
    /// The active buffer: shown bright.
    Active,
    /// A line between sections.
    Separator,
}

impl View for DisplaySection {
    type V = (Seq<char>, DisplayStyle);

    open spec fn view(&self) -> (Seq<char>, DisplayStyle) {
        (self.text@, self.style)
    }
}

/// The views of a list of sections.
pub open spec fn section_views(sections: Seq<DisplaySection>) -> Seq<(Seq<char>, DisplayStyle)> {
    sections.map_values(|section: DisplaySection| section@)
}

/// The separator line.
pub open spec fn separator() -> (Seq<char>, DisplayStyle) {
    (Seq::empty(), DisplayStyle::Separator)
}

/// The pasted sections with a separator between neighbours.
pub open spec fn committed_display(committed: Seq<Seq<char>>) -> Seq<(Seq<char>, DisplayStyle)> {
    Seq::new(
        if committed.len() == 0 {
            0
        } else {
            (2 * committed.len() - 1) as nat
        },
        |k: int|
            if k % 2 == 0 {
                (committed[k / 2], DisplayStyle::Committed)
            } else {
                separator()
            },
    )
}

/// What a preview buffer holds.
#[verifier::ext_equal]
pub struct PreviewModel {
    /// The sections that were pasted.
    pub committed: Seq<Seq<char>>,
    /// The words that were not pasted yet.
    pub active: Seq<Seq<char>>,
    /// A correction of the whole active part.
    pub corrected: Option<Seq<char>>,
    /// Whether a correction is in progress.
    pub pending: bool,
}

impl PreviewModel {
    /// Nothing collected, nothing pasted.
    pub open spec fn empty() -> PreviewModel {
        PreviewModel {
            committed: Seq::empty(),
            active: Seq::empty(),
            corrected: None,
            pending: false,
        }
    }

    /// The active words as text.
    pub open spec fn active_text(self) -> Seq<char> {
        text::sentence(self.active)
    }

    /// The active part as it is shown and pasted: its correction where there is one.
    pub open spec fn shown(self) -> Seq<char> {
        match self.corrected {
            Some(corrected) => corrected,
            None => self.active_text(),
        }
    }

    /// With one more word.
    pub open spec fn with_word(self, word: Seq<char>) -> PreviewModel {
        PreviewModel { active: self.active.push(word), corrected: None, ..self }
    }

    /// With the active part corrected as a whole.
    pub open spec fn with_correction(self, corrected: Seq<char>) -> PreviewModel {
        PreviewModel { corrected: Some(corrected), pending: false, ..self }
    }

    /// With the words of `corrected` in the place of up to `count` words from `start`
    /// on. A `start` beyond the last word changes no word.
    pub open spec fn with_chunk(
        self,
        start: nat,
        count: nat,
        corrected: Seq<char>,
    ) -> PreviewModel {
        PreviewModel {
            active: if start <= self.active.len() {
                let end = if start + count <= self.active.len() {
                    (start + count) as int
                } else {
                    self.active.len() as int
                };
                self.active.take(start as int) + text::words(corrected) + self.active.skip(end)
            } else {
                self.active
            },
            corrected: None,
            ..self
        }
    }

    /// With a pasted section and without the first `count` active words.
    pub open spec fn with_pasted(self, pasted: Seq<char>, count: nat) -> PreviewModel {
        PreviewModel {
            committed: self.committed.push(pasted),
            active: if count <= self.active.len() {
                self.active.skip(count as int)
            } else {
                Seq::empty()
            },
            corrected: None,
            pending: false,
        }
    }

    /// Everything that a commit pastes, section by section.
    pub open spec fn parts(self) -> Seq<Seq<char>> {
        if self.active.len() == 0 {
            self.committed
        } else {
            self.committed.push(self.shown())
        }
    }

    /// The text that a checkpoint pastes.
    pub open spec fn checkpoint_text(self) -> Option<Seq<char>> {
        if self.active.len() == 0 {
            None
        } else {
            Some(self.shown())
        }
    }

    /// The buffer after a checkpoint.
    pub open spec fn after_checkpoint(self) -> PreviewModel {
        if self.active.len() == 0 {
            self
        } else {
            self.with_pasted(self.shown(), self.active.len())
        }
    }

    /// The text that a commit pastes.
    pub open spec fn commit_text(self) -> Option<Seq<char>> {
        if self.parts().len() == 0 {
            None
        } else {
            Some(text::join(self.parts(), seq!['\n', '\n']))
        }
    }

    /// The buffer after a commit.
    pub open spec fn after_commit(self) -> PreviewModel {
        if self.parts().len() == 0 {
            self
        } else {
            PreviewModel::empty()
        }
    }

    /// The sections to display, from top to bottom.
    pub open spec fn display(self) -> Seq<(Seq<char>, DisplayStyle)> {
        committed_display(self.committed) + if self.active.len() == 0 {
            Seq::empty()
        } else if self.committed.len() == 0 {
            seq![(self.shown(), DisplayStyle::Active)]
        } else {
            seq![separator(), (self.shown(), DisplayStyle::Active)]
        }
    }
}

/// Buffer state for preview overlay mode.
#[derive(Debug)]
pub struct PreviewBuffer {
    /// Sections that were pasted.
    pub committed_sections: Vec<String>,
    /// Words in the active buffer, not pasted yet.
    pub active_words: Vec<String>,
    /// Corrected version of the active buffer, if there is one.
    pub corrected_active: Option<String>,
    /// Whether a correction is in progress.
    pub correction_pending: bool,
}

impl View for PreviewBuffer {
    type V = PreviewModel;

    open spec fn view(&self) -> PreviewModel {
        PreviewModel {
            committed: text::texts(self.committed_sections@),
            active: text::texts(self.active_words@),
            corrected: match self.corrected_active {
                Some(corrected) => Some(corrected@),
                None => None,
            },
            pending: self.correction_pending,
        }
    }
}

impl Default for PreviewBuffer {
    fn default() -> (r: Self)
        ensures
            r@ == PreviewModel::empty(),
    {
        let r = PreviewBuffer {
            committed_sections: Vec::new(),
            active_words: Vec::new(),
            corrected_active: None,
            correction_pending: false,
        };
        assert(r@ =~= PreviewModel::empty());
        r
    }
}

impl PreviewBuffer {
    /// An empty buffer.
    pub fn new() -> (r: Self)
        ensures
            r@ == PreviewModel::empty(),
    {
        Self::default()
    }

    /// Adds a word to the active buffer. A correction of the active buffer is dropped,
    /// since its content changed.
    pub fn add_word(&mut self, word: String)
        ensures
            final(self)@ == old(self)@.with_word(word@),
    {
        proof {
            text::lemma_texts_push(self.active_words@, word);
        }
        self.active_words.push(word);
        self.corrected_active = None;
        assert(self@ =~= old(self)@.with_word(word@));
    }

    /// The active text without its correction.
    pub fn active_text(&self) -> (r: String)
        ensures
            r@ == self@.active_text(),
    {
        proof {
            reveal_strlit(" ");
            assert(" "@ =~= seq![' ']);
        }
        join_texts(&self.active_words, " ")
    }

    /// The active text, corrected where there is a correction.
    pub fn active_text_display(&self) -> (r: String)
        ensures
            r@ == self@.shown(),
    {
        match &self.corrected_active {
            Some(corrected) => corrected.clone(),
            None => self.active_text(),
        }
    }

    /// Replaces the active text as a whole by its correction.
    pub fn apply_correction(&mut self, corrected: String)
        ensures
            final(self)@ == old(self)@.with_correction(corrected@),
    {
        self.corrected_active = Some(corrected);
        self.correction_pending = false;
        assert(self@ =~= old(self)@.with_correction(corrected@));
    }

    /// Puts the words of a chunk's correction in the place of the chunk.
    ///
    /// `start` is the index of the chunk's first word, `original_len` the number of words
    /// that it had. Words that came after it are preserved.
    pub fn apply_chunk_correction(&mut self, start: usize, original_len: usize, corrected: &str)
        requires
            start + original_len <= usize::MAX,
        ensures
            final(self)@ == old(self)@.with_chunk(start as nat, original_len as nat, corrected@),
    {
        let mut added = split_words(corrected);
        let len: usize = self.active_words.len();
        let end: usize = if start + original_len < len { start + original_len } else { len };
        if start <= len {
            let mut rest = self.active_words.split_off(end);
            self.active_words.truncate(start);
            self.active_words.append(&mut added);
            self.active_words.append(&mut rest);
        }
        self.corrected_active = None;
        assert(self@ =~= old(self)@.with_chunk(start as nat, original_len as nat, corrected@));
    }

    /// Marks whether a correction is in progress.
    pub fn set_correction_pending(&mut self, pending: bool)
        ensures
            final(self)@ == (PreviewModel { pending, ..old(self)@ }),
    {
        self.correction_pending = pending;
    }

    /// Whether a correction is in progress.
    pub fn is_correction_pending(&self) -> (r: bool)
        ensures
            r == self@.pending,
    {
        self.correction_pending
    }

    /// The number of words in the active buffer.
    pub fn active_word_count(&self) -> (r: usize)
        ensures
            r == self@.active.len(),
    {
        self.active_words.len()
    }

    /// Moves the active text to the pasted sections and returns it for pasting. An empty
    /// active buffer has nothing to paste and nothing changes.
    pub fn checkpoint(&mut self) -> (r: Option<String>)
        ensures
            text::option_text(r) == old(self)@.checkpoint_text(),
            final(self)@ == old(self)@.after_checkpoint(),
    {
        if self.active_words.len() == 0 {
            return None;
        }
        let pasted = self.active_text_display();
        let section = pasted.clone();
        proof {
            text::lemma_texts_push(self.committed_sections@, section);
        }
        self.committed_sections.push(section);
        self.active_words.clear();
        self.corrected_active = None;
        self.correction_pending = false;
        assert(self@ =~= old(self)@.with_pasted(pasted@, old(self)@.active.len()));
        Some(pasted)
    }

    /// Completes a breakpoint: the corrected text becomes a pasted section and the first
    /// `boundary` active words leave. Words that came after the breakpoint stay. With an
    /// empty text and no boundary there is nothing to complete.
    pub fn breakpoint_complete(&mut self, corrected: String, boundary: usize) -> (r: Option<
        String,
    >)
        ensures
            corrected@.len() == 0 && boundary == 0 ==> r is None && final(self)@ == old(self)@,
            corrected@.len() > 0 || boundary > 0 ==> text::option_text(r) == Some(corrected@)
                && final(self)@ == old(self)@.with_pasted(corrected@, boundary as nat),
    {
        if corrected.as_str().is_empty() && boundary == 0 {
            return None;
        }
        let section = corrected.clone();
        proof {
            text::lemma_texts_push(self.committed_sections@, section);
        }
        self.committed_sections.push(section);
        let len: usize = self.active_words.len();
        let actual: usize = if boundary < len { boundary } else { len };
        let rest = self.active_words.split_off(actual);
        self.active_words = rest;
        self.corrected_active = None;
        self.correction_pending = false;
        assert(self@ =~= old(self)@.with_pasted(corrected@, boundary as nat));
        Some(corrected)
    }

    /// Returns the whole text, pasted sections first, each a paragraph, and clears the
    /// buffer. With no section and no word nothing changes.
    pub fn commit(&mut self) -> (r: Option<String>)
        ensures
            text::option_text(r) == old(self)@.commit_text(),
            final(self)@ == old(self)@.after_commit(),
    {
        let mut parts = self.committed_sections.clone();
        assert(parts@ =~= self.committed_sections@);
        if self.active_words.len() > 0 {
            let section = self.active_text_display();
            proof {
                text::lemma_texts_push(parts@, section);
            }
            parts.push(section);
        }
        if parts.len() == 0 {
            return None;
        }
        self.clear();
        proof {
            reveal_strlit("\n\n");
            assert("\n\n"@ =~= seq!['\n', '\n']);
        }
        Some(join_texts(&parts, "\n\n"))
    }

    /// Clears everything without returning text.
    pub fn clear(&mut self)
        ensures
            final(self)@ == PreviewModel::empty(),
    {
        self.committed_sections.clear();
        self.active_words.clear();
        self.corrected_active = None;
        self.correction_pending = false;
        assert(self@ =~= PreviewModel::empty());
    }

    /// Whether there is neither a pasted section nor an active word.
    pub fn is_empty(&self) -> (r: bool)
        ensures
            r == (self@.committed.len() == 0 && self@.active.len() == 0),
    {
        self.committed_sections.len() == 0 && self.active_words.len() == 0
    }

    /// The sections to render in the overlay.
    pub fn display_sections(&self) -> (r: Vec<DisplaySection>)
        ensures
            section_views(r@) == self@.display(),
    {
        let mut sections: Vec<DisplaySection> = Vec::new();
        let mut i: usize = 0;
        assert(section_views(sections@) =~= committed_display(self@.committed.take(0)));
        while i < self.committed_sections.len()
            invariant
                i <= self.committed_sections.len(),
                section_views(sections@) == committed_display(self@.committed.take(i as int)),
            decreases self.committed_sections.len() - i,
        {
            let ghost before = sections@;
            if i > 0 {
                sections.push(
                    DisplaySection { text: String::new(), style: DisplayStyle::Separator },
                );
            }
            sections.push(
                DisplaySection {
                    text: self.committed_sections[i].clone(),
                    style: DisplayStyle::Committed,
                },
            );
            proof {
                let now = committed_display(self@.committed.take(i + 1));
                let then = committed_display(self@.committed.take(i as int));
                assert forall|k: int| 0 <= k < then.len() implies now[k] == then[k] by {
                    if k % 2 == 0 {
                        assert(0 <= k / 2 < i);
                    }
                }
                assert(section_views(sections@).take(before.len() as int) =~= section_views(
                    before,
                ));
                assert(section_views(sections@) =~= now);
            }
            i += 1;
        }
        assert(self@.committed.take(self@.committed.len() as int) =~= self@.committed);
        if self.committed_sections.len() > 0 && self.active_words.len() > 0 {
            sections.push(DisplaySection { text: String::new(), style: DisplayStyle::Separator });
        }
        if self.active_words.len() > 0 {
            sections.push(
                DisplaySection { text: self.active_text_display(), style: DisplayStyle::Active },
            );
        }
        assert(section_views(sections@) =~= self@.display());
        sections
    }
}

} // verus!
