//! What the preview buffer collects, shows and pastes.

use crate::buffer_laws;
use crate::preview_buffer;
use crate::preview_buffer::{DisplayStyle, PreviewModel};
use crate::text;
use crate::text_laws;
use vstd::prelude::*;

verus! {

/// Whether parts are all that a buffer has: the pasted sections in order, and after them the
/// active text, which is the correction where there is one and else the active words with
/// single spaces between them.
pub open spec fn all_parts(buffer: PreviewModel, parts: Seq<Seq<char>>) -> bool {
    if buffer.active.len() == 0 {
        parts == buffer.committed
    } else {
        &&& parts.len() == buffer.committed.len() + 1
        &&& parts.drop_last() == buffer.committed
        &&& match buffer.corrected {
            Some(corrected) => parts.last() == corrected,
            None => parts.last() == text::sentence(buffer.active),
        }
    }
}

/// A commit pastes every part in order, with a blank line between neighbours and nothing else,
/// whatever the number of parts; with no part it pastes nothing.
pub proof fn law_commit_pastes_every_part(buffer: PreviewModel, parts: Seq<Seq<char>>)
    requires
        all_parts(buffer, parts),
    ensures
        parts.len() == 0 ==> buffer.commit_text() is None,
        parts.len() > 0 ==> {
            let pasted = buffer.commit_text()->0;
            &&& buffer.commit_text() is Some
            &&& pasted.len() + 2 == text_laws::place_of(parts, 2, parts.len() as int)
            &&& forall|i: int|
                0 <= i < parts.len() ==> {
                    let place = #[trigger] text_laws::place_of(parts, 2, i);
                    &&& place + parts[i].len() <= pasted.len()
                    &&& pasted.subrange(place, place + parts[i].len()) == parts[i]
                    &&& i > 0 ==> pasted[place - 1] == '\n' && pasted[place - 2] == '\n'
                }
        },
{
    let gap = seq!['\n', '\n'];
    assert(buffer.parts() =~= parts) by {
        if buffer.active.len() > 0 {
            assert(parts.drop_last().push(parts.last()) =~= parts);
        }
    }
    if parts.len() > 0 {
        let pasted = buffer.commit_text()->0;
        text_laws::law_join_holds_every_part(parts, gap);
        assert forall|i: int| 0 <= i < parts.len() implies {
            let place = #[trigger] text_laws::place_of(parts, 2, i);
            &&& place + parts[i].len() <= pasted.len()
            &&& pasted.subrange(place, place + parts[i].len()) == parts[i]
            &&& i > 0 ==> pasted[place - 1] == '\n' && pasted[place - 2] == '\n'
        } by {
            let place = text_laws::place_of(parts, 2, i);
            if i > 0 {
                let between = pasted.subrange(place - 2, place);
                assert(between == gap);
                assert(between[0] == pasted[place - 2]);
                assert(between[1] == pasted[place - 1]);
            }
        }
    }
}

/// A commit leaves nothing, and a checkpoint leaves its text as the last section and no active
/// words; with nothing to paste neither changes anything.
pub proof fn law_pasted_text_leaves(buffer: PreviewModel)
    ensures
        buffer.after_commit().committed.len() == 0,
        buffer.after_commit().active.len() == 0,
        buffer.committed.len() + buffer.active.len() == 0 ==> buffer.after_commit() == buffer,
        buffer.committed.len() + buffer.active.len() > 0 ==> buffer.after_commit().corrected is None
            && !buffer.after_commit().pending,
        buffer.active.len() == 0 ==> buffer.after_checkpoint() == buffer
            && buffer.checkpoint_text() is None,
        buffer.active.len() > 0 ==> {
            let after = buffer.after_checkpoint();
            &&& buffer.checkpoint_text() is Some
            &&& after.committed == buffer.committed.push(buffer.checkpoint_text()->0)
            &&& after.active.len() == 0
            &&& after.corrected is None
            &&& !after.pending
        },
{
}

/// Words are collected in their order, and they are what is shown and pasted, with single
/// spaces between them.
pub proof fn law_words_are_collected(words: Seq<Seq<char>>)
    requires
        words.len() > 0,
    ensures
        ({
            let buffer = buffer_laws::with_words(PreviewModel::empty(), words);
            &&& buffer.active == words
            &&& buffer.committed.len() == 0
            &&& buffer.shown() == text::sentence(words)
            &&& buffer.checkpoint_text() == Some(text::sentence(words))
            &&& buffer.commit_text() == Some(text::sentence(words))
        }),
{
    let buffer = buffer_laws::with_words(PreviewModel::empty(), words);
    let shown = text::sentence(words);
    buffer_laws::lemma_with_words(PreviewModel::empty(), words);
    assert(PreviewModel::empty().active + words =~= words);
    assert(buffer.parts() =~= seq![shown]);
    text_laws::law_join_in_groups(seq![shown], seq![shown], seq!['\n', '\n']);
}

/// A buffer after several rounds of words, each with a checkpoint at its end.
pub open spec fn after_rounds(rounds: Seq<Seq<Seq<char>>>) -> PreviewModel
    decreases rounds.len(),
{
    if rounds.len() == 0 {
        PreviewModel::empty()
    } else {
        buffer_laws::with_words(
            after_rounds(rounds.drop_last()),
            rounds.last(),
        ).after_checkpoint()
    }
}

/// Whatever the number of checkpoints, each section is kept with all its words and in its
/// order.
pub proof fn law_sections_are_kept(rounds: Seq<Seq<Seq<char>>>)
    requires
        forall|i: int| 0 <= i < rounds.len() ==> (#[trigger] rounds[i]).len() > 0,
    ensures
        after_rounds(rounds).committed.len() == rounds.len(),
        forall|i: int|
            0 <= i < rounds.len() ==> #[trigger] after_rounds(rounds).committed[i]
                == text::sentence(rounds[i]),
        after_rounds(rounds).active.len() == 0,
        after_rounds(rounds).corrected is None,
    decreases rounds.len(),
{
    if rounds.len() > 0 {
        let less = rounds.drop_last();
        let before = after_rounds(less);
        assert forall|i: int| 0 <= i < less.len() implies (#[trigger] less[i]).len() > 0 by {
            assert(less[i] == rounds[i]);
        }
        law_sections_are_kept(less);
        assert(rounds[rounds.len() - 1].len() > 0);
        buffer_laws::lemma_with_words(before, rounds.last());
        assert(before.active + rounds.last() =~= rounds.last());
        assert forall|i: int| 0 <= i < rounds.len() implies #[trigger] after_rounds(
            rounds,
        ).committed[i] == text::sentence(rounds[i]) by {
            if i < less.len() {
                assert(before.committed[i] == text::sentence(less[i]));
            }
        }
    }
}

/// A correction of the active text is shown and pasted in its place until a word comes or a
/// chunk is corrected; then the words are shown again.
pub proof fn law_correction_is_shown(
    buffer: PreviewModel,
    corrected: Seq<char>,
    word: Seq<char>,
    start: nat,
    count: nat,
)
    ensures
        buffer.with_correction(corrected).shown() == corrected,
        buffer.with_correction(corrected).active == buffer.active,
        buffer.with_correction(corrected).committed == buffer.committed,
        buffer.active.len() > 0 ==> buffer.with_correction(corrected).checkpoint_text() == Some(
            corrected,
        ),
        buffer.with_correction(corrected).with_word(word).shown() == text::sentence(
            buffer.active.push(word),
        ),
        buffer.with_word(word).committed == buffer.committed,
        buffer.with_chunk(start, count, corrected).committed == buffer.committed,
        buffer.with_chunk(start, count, corrected).shown() == text::sentence(
            buffer.with_chunk(start, count, corrected).active,
        ),
{
}

/// The correction of a chunk puts its words in the place of the chunk's words; those before and
/// after stay. A chunk that ends beyond the last word ends with it, and one that begins beyond
/// the last word changes no word.
pub proof fn law_chunk_is_replaced(
    buffer: PreviewModel,
    before: Seq<Seq<char>>,
    chunk: Seq<Seq<char>>,
    after: Seq<Seq<char>>,
    more: nat,
    corrected: Seq<char>,
)
    requires
        buffer.active == before + chunk + after,
    ensures
        buffer.with_chunk(before.len(), chunk.len(), corrected).active == before + text::words(
            corrected,
        ) + after,
        after.len() == 0 ==> buffer.with_chunk(
            before.len(),
            chunk.len() + more,
            corrected,
        ).active == before + text::words(corrected),
        buffer.with_chunk(
            buffer.active.len() + 1 + more,
            chunk.len(),
            corrected,
        ).active == buffer.active,
{
    let n = before.len() as int;
    assert(buffer.active.take(n) =~= before);
    assert(buffer.active.skip(n + chunk.len()) =~= after);
    assert(buffer.with_chunk(before.len(), chunk.len(), corrected).active =~= before
        + text::words(corrected) + after);
    if after.len() == 0 {
        assert(buffer.active.skip(buffer.active.len() as int) =~= Seq::empty());
        assert(buffer.with_chunk(before.len(), chunk.len() + more, corrected).active =~= before
            + text::words(corrected));
    }
}

/// A completed breakpoint becomes the last section, and the words before it leave; the words
/// after it stay.
pub proof fn law_breakpoint_moves_words(
    buffer: PreviewModel,
    done: Seq<Seq<char>>,
    after: Seq<Seq<char>>,
    more: nat,
    pasted: Seq<char>,
)
    requires
        buffer.active == done + after,
    ensures
        buffer.with_pasted(pasted, done.len()).active == after,
        buffer.with_pasted(pasted, buffer.active.len() + more).active.len() == 0,
        buffer.with_pasted(pasted, done.len()).committed == buffer.committed.push(pasted),
        buffer.with_pasted(pasted, done.len()).corrected is None,
{
    assert(buffer.active.skip(done.len() as int) =~= after);
    assert(buffer.active.skip(buffer.active.len() as int) =~= Seq::empty());
}

/// The sections on display are the pasted ones, dimmed, and the active text, bright, from top to
/// bottom, with a separator between neighbours.
pub proof fn law_sections_on_display(buffer: PreviewModel, parts: Seq<Seq<char>>)
    requires
        all_parts(buffer, parts),
    ensures
        parts.len() == 0 ==> buffer.display().len() == 0,
        parts.len() > 0 ==> buffer.display().len() == 2 * parts.len() - 1,
        forall|i: int|
            0 <= i < parts.len() ==> #[trigger] buffer.display()[2 * i] == (
                parts[i],
                if i < buffer.committed.len() {
                    DisplayStyle::Committed
                } else {
                    DisplayStyle::Active
                },
            ),
        forall|i: int|
            0 <= i < parts.len() - 1 ==> (#[trigger] buffer.display()[2 * i + 1]).1
                == DisplayStyle::Separator && buffer.display()[2 * i + 1].0.len() == 0,
{
    let committed = preview_buffer::committed_display(buffer.committed);
    assert(buffer.parts() =~= parts) by {
        if buffer.active.len() > 0 {
            assert(parts.drop_last().push(parts.last()) =~= parts);
        }
    }
    buffer_laws::law_display_shows_what_is_pasted(buffer);
    assert forall|i: int| 0 <= i < parts.len() implies #[trigger] buffer.display()[2 * i] == (
        parts[i],
        if i < buffer.committed.len() {
            DisplayStyle::Committed
        } else {
            DisplayStyle::Active
        },
    ) by {
        assert(buffer.display()[2 * i].0 == buffer.parts()[i]);
        if i < buffer.committed.len() {
            assert((2 * i) % 2 == 0);
            assert(buffer.display()[2 * i] == committed[2 * i]);
        }
    }
    assert forall|i: int| 0 <= i < parts.len() - 1 implies (
    #[trigger] buffer.display()[2 * i + 1]).1 == DisplayStyle::Separator && buffer.display()[2 * i
        + 1].0.len() == 0 by {
        assert(buffer.display()[2 * i + 1] == preview_buffer::separator());
    }
}

} // verus!
