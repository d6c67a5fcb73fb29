//! What holds of the preview buffer and the correction buffer across operations.

use crate::correction_buffer::CorrectionModel;
use crate::preview_buffer;
use crate::preview_buffer::{DisplayStyle, PreviewModel};
use crate::text;
use vstd::prelude::*;

verus! {

/// A preview buffer with several more words.
pub open spec fn with_words(buffer: PreviewModel, added: Seq<Seq<char>>) -> PreviewModel
    decreases added.len(),
{
    if added.len() == 0 {
        buffer
    } else {
        with_words(buffer, added.drop_last()).with_word(added.last())
    }
}

/// Several more words stand at the end of the active words.
pub proof fn lemma_with_words(buffer: PreviewModel, added: Seq<Seq<char>>)
    ensures
        with_words(buffer, added).active == buffer.active + added,
        with_words(buffer, added).committed == buffer.committed,
        with_words(buffer, added).pending == buffer.pending,
        with_words(buffer, added).corrected == if added.len() == 0 {
            buffer.corrected
        } else {
            None
        },
    decreases added.len(),
{
    if added.len() == 0 {
        assert(buffer.active + added =~= buffer.active);
    } else {
        lemma_with_words(buffer, added.drop_last());
        assert(buffer.active + added =~= (buffer.active + added.drop_last()).push(added.last()));
    }
}

/// Words that come while a chunk is being corrected are preserved: the correction gives the
/// same buffer whether it is applied before or after they come.
pub proof fn law_chunk_correction_keeps_later_words(
    buffer: PreviewModel,
    start: nat,
    count: nat,
    corrected: Seq<char>,
    later: Seq<Seq<char>>,
)
    requires
        start + count <= buffer.active.len(),
    ensures
        with_words(buffer, later).with_chunk(start, count, corrected) == with_words(
            buffer.with_chunk(start, count, corrected),
            later,
        ),
{
    lemma_with_words(buffer, later);
    lemma_with_words(buffer.with_chunk(start, count, corrected), later);
    let one = with_words(buffer, later).with_chunk(start, count, corrected);
    let other = with_words(buffer.with_chunk(start, count, corrected), later);
    assert(one.active =~= other.active);
    assert(one =~= other);
}

/// Words that come while a section is being completed are preserved: completing it gives the
/// same buffer whether that is done before or after they come.
pub proof fn law_breakpoint_keeps_later_words(
    buffer: PreviewModel,
    pasted: Seq<char>,
    boundary: nat,
    later: Seq<Seq<char>>,
)
    requires
        boundary <= buffer.active.len(),
    ensures
        with_words(buffer, later).with_pasted(pasted, boundary) == with_words(
            buffer.with_pasted(pasted, boundary),
            later,
        ),
{
    lemma_with_words(buffer, later);
    lemma_with_words(buffer.with_pasted(pasted, boundary), later);
    let one = with_words(buffer, later).with_pasted(pasted, boundary);
    let other = with_words(buffer.with_pasted(pasted, boundary), later);
    assert(one.active =~= other.active);
    assert(one =~= other);
}

/// A checkpoint loses no text: a commit after it pastes what a commit in its place would
/// have pasted.
pub proof fn law_checkpoint_loses_nothing(buffer: PreviewModel)
    ensures
        buffer.after_checkpoint().parts() == buffer.parts(),
        buffer.after_checkpoint().commit_text() == buffer.commit_text(),
{
    if buffer.active.len() > 0 {
        assert(buffer.after_checkpoint().active =~= Seq::empty());
        assert(buffer.after_checkpoint().parts() =~= buffer.parts());
    }
}

/// Nothing is pasted twice: after a checkpoint there is nothing for another, and after a
/// commit there is nothing for either.
pub proof fn law_nothing_is_pasted_twice(buffer: PreviewModel)
    ensures
        buffer.after_checkpoint().checkpoint_text() is None,
        buffer.after_commit().checkpoint_text() is None,
        buffer.after_commit().commit_text() is None,
{
}

/// What is shown is what a commit would paste: every other section is one of the parts, with
/// separators between them.
pub proof fn law_display_shows_what_is_pasted(buffer: PreviewModel)
    ensures
        buffer.display().len() == if buffer.parts().len() == 0 {
            0
        } else {
            2 * buffer.parts().len() - 1
        },
        forall|i: int|
            0 <= i < buffer.parts().len() ==> {
                &&& (#[trigger] buffer.display()[2 * i]).0 == buffer.parts()[i]
                &&& buffer.display()[2 * i].1 != DisplayStyle::Separator
            },
        forall|i: int|
            0 <= i < buffer.parts().len() - 1 ==> #[trigger] buffer.display()[2 * i + 1]
                == preview_buffer::separator(),
{
    let parts = buffer.parts();
    let committed = preview_buffer::committed_display(buffer.committed);
    assert forall|i: int| 0 <= i < parts.len() implies {
        &&& (#[trigger] buffer.display()[2 * i]).0 == parts[i]
        &&& buffer.display()[2 * i].1 != DisplayStyle::Separator
    } by {
        if i < buffer.committed.len() {
            assert((2 * i) / 2 == i && (2 * i) % 2 == 0);
            assert(buffer.display()[2 * i] == committed[2 * i]);
        }
    }
    assert forall|i: int| 0 <= i < parts.len() - 1 implies #[trigger] buffer.display()[2 * i + 1]
        == preview_buffer::separator() by {
        assert((2 * i + 1) % 2 == 1);
        if i < buffer.committed.len() - 1 {
            assert(buffer.display()[2 * i + 1] == committed[2 * i + 1]);
        }
    }
}

/// Whether the words of the chunk are the last words of the paragraph.
pub open spec fn chunk_ends_paragraph(buffer: CorrectionModel) -> bool {
    &&& buffer.chunk.len() <= buffer.paragraph.len()
    &&& buffer.chunk == buffer.paragraph.skip(buffer.paragraph.len() - buffer.chunk.len())
}

/// The chunk stays the end of the paragraph when words are added and when chunk or paragraph
/// are taken.
pub proof fn law_chunk_stays_end_of_paragraph(buffer: CorrectionModel, word: Seq<char>)
    requires
        chunk_ends_paragraph(buffer),
        !buffer.chunks ==> buffer.chunk.len() == 0,
    ensures
        chunk_ends_paragraph(buffer.with_word(word)),
        chunk_ends_paragraph(buffer.without_chunk()),
        chunk_ends_paragraph(buffer.emptied()),
{
    let added = buffer.with_word(word);
    assert(added.chunk =~= added.paragraph.skip(added.paragraph.len() - added.chunk.len()));
    assert(buffer.paragraph.skip(buffer.paragraph.len() as int) =~= Seq::empty());
    assert(buffer.emptied().paragraph.skip(0) =~= Seq::empty());
}

/// The correction of a chunk puts its words in the place of the chunk's: the words before the
/// chunk and the words that came after it was taken stay as they are, and the latter are
/// still the chunk that ends the paragraph.
pub proof fn law_correction_replaces_the_chunk(
    buffer: CorrectionModel,
    before: Seq<Seq<char>>,
    taken: Seq<Seq<char>>,
    corrected: Seq<char>,
)
    requires
        buffer.paragraph == before + taken + buffer.chunk,
    ensures
        buffer.corrected(taken, corrected).paragraph == before + text::words(corrected)
            + buffer.chunk,
        chunk_ends_paragraph(buffer.corrected(taken, corrected)),
{
    let fresh = buffer.corrected(taken, corrected);
    let place = (before.len() + taken.len()) as int;
    assert(buffer.paragraph.subrange(before.len() as int, place) =~= taken);
    assert(buffer.paragraph.take(before.len() as int) =~= before);
    assert(buffer.paragraph.skip(place) =~= buffer.chunk);
    assert(fresh.paragraph =~= before + text::words(corrected) + buffer.chunk);
    assert(fresh.paragraph.skip(fresh.paragraph.len() - fresh.chunk.len()) =~= fresh.chunk);
}

/// The correction of words at the end of the paragraph puts its words in their place, whether
/// they were taken or not, unless the same words stand right before a chunk that was not
/// taken: those are held to be the ones that were taken.
pub proof fn law_correction_replaces_the_end(
    buffer: CorrectionModel,
    before: Seq<Seq<char>>,
    original: Seq<Seq<char>>,
    corrected: Seq<char>,
)
    requires
        buffer.paragraph == before + original,
        buffer.chunk.len() == 0 || before.len() < buffer.chunk.len() || buffer.paragraph.subrange(
            before.len() - buffer.chunk.len(),
            buffer.paragraph.len() - buffer.chunk.len(),
        ) != original,
    ensures
        buffer.corrected(original, corrected).paragraph == before + text::words(corrected),
        buffer.corrected(original, corrected).chunk == buffer.chunk,
{
    let fresh = buffer.corrected(original, corrected);
    let all = buffer.paragraph.len() as int;
    assert(buffer.paragraph.take(before.len() as int) =~= before);
    assert(buffer.paragraph.subrange(before.len() as int, all) =~= original);
    assert(fresh.paragraph =~= before + text::words(corrected));
}

/// A call of a method that changes a preview buffer.
pub enum BufferCall {
    SetPending(bool),
    AddWord(Seq<char>),
    ApplyCorrection(Seq<char>),
    ApplyChunkCorrection { start: nat, count: nat, corrected: Seq<char> },
    Checkpoint,
    CompleteBreakpoint { corrected: Seq<char>, boundary: nat },
    Commit,
    Clear,
}

impl BufferCall {
    /// The buffer after the call.
    pub open spec fn on(self, buffer: PreviewModel) -> PreviewModel {
        match self {
            BufferCall::SetPending(pending) => PreviewModel { pending, ..buffer },
            BufferCall::AddWord(word) => buffer.with_word(word),
            BufferCall::ApplyCorrection(corrected) => buffer.with_correction(corrected),
            BufferCall::ApplyChunkCorrection { start, count, corrected } => buffer.with_chunk(
                start,
                count,
                corrected,
            ),
            BufferCall::Checkpoint => buffer.after_checkpoint(),
            BufferCall::CompleteBreakpoint { corrected, boundary } => if corrected.len() == 0
                && boundary == 0 {
                buffer
            } else {
                buffer.with_pasted(corrected, boundary)
            },
            BufferCall::Commit => buffer.after_commit(),
            BufferCall::Clear => PreviewModel::empty(),
        }
    }

    /// Whether the call neither sets nor clears the mark of a correction in progress: it adds
    /// words, or it pastes and has nothing to paste.
    pub open spec fn leaves_mark(self, buffer: PreviewModel) -> bool {
        match self {
            BufferCall::AddWord(_) | BufferCall::ApplyChunkCorrection { .. } => true,
            BufferCall::Checkpoint => buffer.checkpoint_text() is None,
            BufferCall::CompleteBreakpoint { corrected, boundary } => corrected.len() == 0
                && boundary == 0,
            BufferCall::Commit => buffer.commit_text() is None,
            BufferCall::SetPending(_) | BufferCall::ApplyCorrection(_) | BufferCall::Clear => false,
        }
    }
}

/// A new preview buffer after several calls.
pub open spec fn after_calls(calls: Seq<BufferCall>) -> PreviewModel
    decreases calls.len(),
{
    if calls.len() == 0 {
        PreviewModel::empty()
    } else {
        calls.last().on(after_calls(calls.drop_last()))
    }
}

/// Whether the call at a place marked a correction as in progress, and no later call set or
/// cleared the mark.
pub open spec fn marked_at(calls: Seq<BufferCall>, place: int) -> bool {
    &&& 0 <= place < calls.len()
    &&& calls[place] == BufferCall::SetPending(true)
    &&& forall|j: int|
        place < j < calls.len() ==> (#[trigger] calls[j]).leaves_mark(after_calls(calls.take(j)))
}

/// A correction is in progress exactly where the last setting of the mark said so and nothing
/// cleared it since.
pub proof fn law_pending_is_the_last_setting(calls: Seq<BufferCall>)
    ensures
        after_calls(calls).pending <==> exists|place: int| marked_at(calls, place),
    decreases calls.len(),
{
    if calls.len() > 0 {
        let before = calls.drop_last();
        let last = calls.last();
        let end = calls.len() - 1;
        law_pending_is_the_last_setting(before);
        assert(calls.take(end) =~= before);
        assert forall|j: int| 0 <= j < end implies #[trigger] calls.take(j) == before.take(j) by {
            assert(calls.take(j) =~= before.take(j));
        }
        if last == BufferCall::SetPending(true) {
            assert(marked_at(calls, end));
        } else if last.leaves_mark(after_calls(before)) {
            if after_calls(before).pending {
                let place = choose|place: int| marked_at(before, place);
                assert forall|j: int| place < j < calls.len() implies (
                #[trigger] calls[j]).leaves_mark(after_calls(calls.take(j))) by {
                    if j < end {
                        assert(before[j] == calls[j]);
                    }
                }
                assert(calls[place] == before[place]);
                assert(marked_at(calls, place));
            }
            assert forall|place: int| marked_at(calls, place) implies marked_at(
                before,
                place,
            ) by {
                assert(place != end);
                assert(before[place] == calls[place]);
                assert forall|j: int| place < j < before.len() implies (
                #[trigger] before[j]).leaves_mark(after_calls(before.take(j))) by {
                    assert(calls[j] == before[j]);
                }
            }
        } else {
            assert forall|place: int| !marked_at(calls, place) by {
                if place < end {
                    assert(calls[end] == last);
                }
            }
        }
    }
}

} // verus!
