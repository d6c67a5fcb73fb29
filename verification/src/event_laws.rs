//! What a session hands out for each event.

use crate::correction_buffer::{CorrectionModel, CorrectionProfile};
use crate::correction_laws;
use crate::dictation::Status;
use crate::gtk_overlay::{OverlayStatus, ResponseModel};
use crate::protocol;
use crate::session;
use crate::session::{ActionModel, DrainPlan, DrainReason, PhaseModel, SessionModel};
use crate::similarity;
use crate::text;
use crate::virtual_keyboard::KeyboardKind;
use vstd::prelude::*;

verus! {

/// Whether a word holds a letter or a digit at a place.
pub open spec fn sounds_at(word: Seq<char>, place: int) -> bool {
    0 <= place < word.len() && text::alphanumeric(word[place])
}

/// A word is dictated exactly where it holds a letter or a digit, wherever in it that stands;
/// so two words in one are dictated where one of them is.
pub proof fn law_dictated_words(word: Seq<char>, place: int, more: Seq<char>)
    ensures
        sounds_at(word, place) ==> protocol::dictated(word),
        (forall|i: int| 0 <= i < word.len() ==> !text::alphanumeric(#[trigger] word[i]))
            ==> !protocol::dictated(word),
        protocol::dictated(word + more) <==> protocol::dictated(word) || protocol::dictated(more),
{
    let both = word + more;
    if sounds_at(word, place) {
        assert(text::alphanumeric(word[place]));
    }
    if protocol::dictated(word) {
        let i = choose|i: int| 0 <= i < word.len() && text::alphanumeric(#[trigger] word[i]);
        assert(text::alphanumeric(both[i]));
    }
    if protocol::dictated(more) {
        let i = choose|i: int| 0 <= i < more.len() && text::alphanumeric(#[trigger] more[i]);
        assert(text::alphanumeric(both[word.len() + i]));
    }
    if protocol::dictated(both) {
        let i = choose|i: int| 0 <= i < both.len() && text::alphanumeric(#[trigger] both[i]);
        if i < word.len() {
            assert(text::alphanumeric(word[i]));
        } else {
            assert(text::alphanumeric(more[i - word.len()]));
        }
    }
}

/// While an idle session captures, every word with a letter or a digit goes out as it is: to
/// the keyboard, or in preview mode to the open overlay, where it is remembered too.
pub proof fn law_every_word_goes_out(state: SessionModel, word: Seq<char>, place: int, now: nat)
    requires
        state.phase == PhaseModel::Idle,
        sounds_at(word, place),
    ensures
        ({
            let next = state.on_word(word, true, now);
            &&& next.0.last_word == now
            &&& !state.preview ==> {
                &&& next.1 == seq![ActionModel::TypeWord(word)]
                &&& next.0.phase == PhaseModel::Typing(word)
                &&& next.0.buffer == state.buffer
            }
            &&& state.preview && state.overlay_open ==> {
                &&& next.1 == seq![ActionModel::OverlayWord(word)]
                &&& next.0.phase == PhaseModel::Idle
                &&& next.0.buffer.paragraph == state.buffer.paragraph.push(word)
                &&& state.buffer.chunks ==> next.0.buffer.chunk == state.buffer.chunk.push(word)
                &&& next.0.overlay_words == state.overlay_words + 1
            }
            &&& state.preview && !state.overlay_open ==> {
                &&& next.1.len() == 0
                &&& next.0.buffer == state.buffer
            }
        }),
{
    law_dictated_words(word, place, Seq::empty());
}

/// Words that come while a chunk in the overlay is being corrected, or late, go out and are
/// remembered too, whether audio is captured or not.
pub proof fn law_late_words_go_out(
    state: SessionModel,
    word: Seq<char>,
    place: int,
    capturing: bool,
    now: nat,
)
    requires
        sounds_at(word, place),
        state.phase is OverlayChunk || state.phase is Draining,
        state.phase is OverlayChunk || state.phase == PhaseModel::Draining(DrainReason::Checkpoint)
            ==> state.overlay_open,
    ensures
        ({
            let next = state.on_word(word, capturing, now);
            let typed = state.phase == PhaseModel::Draining(DrainReason::Silence) || (state.phase
                == PhaseModel::Draining(DrainReason::ToggleOff) && !state.preview);
            &&& next.0.buffer.paragraph == state.buffer.paragraph.push(word)
            &&& next.0.phase == state.phase
            &&& typed ==> next.1 == seq![ActionModel::TypeAnyway(word)] && next.0.overlay_words
                == state.overlay_words
            &&& !typed && state.overlay_open ==> next.1 == seq![ActionModel::OverlayWord(word)]
                && next.0.overlay_words == state.overlay_words + 1
            &&& !typed && !state.overlay_open ==> next.1.len() == 0
        }),
{
    law_dictated_words(word, place, Seq::empty());
}

/// A word that was typed is remembered as the last of the paragraph; one that could not be
/// typed is not.
pub proof fn law_typed_words_are_remembered(state: SessionModel, word: Seq<char>, now: nat)
    requires
        state.phase == PhaseModel::Typing(word),
    ensures
        state.on_typed(true, now).0.buffer.paragraph == state.buffer.paragraph.push(word),
        state.on_typed(false, now).0.buffer == state.buffer,
        state.on_typed(false, now).1.len() == 0,
        state.on_typed(false, now).0.phase == PhaseModel::Idle,
        state.on_typed(true, now).1.len() == 0 ==> state.on_typed(true, now).0.phase
            == PhaseModel::Idle,
{
}

/// The correction of a chunk of at least two words is asked for as soon as a word with
/// punctuation at its end was typed, whatever the number of words, and with the sixth word; all
/// words of the chunk are asked for, and the next chunk begins without words.
pub proof fn law_complete_chunks_are_asked_for(
    state: SessionModel,
    word: Seq<char>,
    place: int,
    now: nat,
)
    requires
        state.phase == PhaseModel::Typing(word),
        state.buffer.chunks,
        state.buffer.chunk.len() >= 1,
        correction_laws::last_visible(word, place),
    ensures
        ({
            let next = state.on_typed(true, now);
            let marked = word[place] == '.' || word[place] == '?' || word[place] == '!'
                || word[place] == ',' || word[place] == ';';
            let words = state.buffer.chunk.push(word);
            &&& marked || words.len() >= 6 ==> {
                &&& next.1 == seq![ActionModel::AskSentence(text::sentence(words))]
                &&& next.0.phase == (PhaseModel::TypedChunk { words, paused: false })
                &&& next.0.buffer.chunk.len() == 0
            }
            &&& !marked && words.len() < 6 ==> {
                &&& next.1.len() == 0
                &&& next.0.buffer.chunk == words
            }
        }),
{
    correction_laws::law_punctuation_completes_a_chunk(state.buffer.with_word(word), word, place);
}

/// A session after several words, each of which was typed.
pub open spec fn after_dictation(
    state: SessionModel,
    words: Seq<Seq<char>>,
    now: nat,
) -> session::Outcome
    decreases words.len(),
{
    if words.len() == 0 {
        (state, Seq::empty())
    } else {
        let before = after_dictation(state, words.drop_last(), now);
        let heard = before.0.on_word(words.last(), true, now);
        let typed = heard.0.on_typed(true, now);
        (typed.0, before.1 + heard.1 + typed.1)
    }
}

/// Dictated prose is typed word for word, all of it and in its order, and the paragraph is what
/// was dictated.
pub proof fn law_dictation_is_typed_word_for_word(
    state: SessionModel,
    words: Seq<Seq<char>>,
    now: nat,
)
    requires
        !state.preview,
        state.phase == PhaseModel::Idle,
        !state.buffer.chunks,
        forall|i: int| 0 <= i < words.len() ==> protocol::dictated(#[trigger] words[i]),
    ensures
        ({
            let end = after_dictation(state, words, now);
            &&& end.1.len() == words.len()
            &&& forall|i: int|
                0 <= i < words.len() ==> #[trigger] end.1[i] == ActionModel::TypeWord(words[i])
            &&& end.0.phase == PhaseModel::Idle
            &&& !end.0.preview
            &&& !end.0.buffer.chunks
            &&& end.0.buffer.paragraph == state.buffer.paragraph + words
        }),
    decreases words.len(),
{
    if words.len() == 0 {
        assert(state.buffer.paragraph + words =~= state.buffer.paragraph);
    } else {
        let less = words.drop_last();
        assert forall|i: int| 0 <= i < less.len() implies protocol::dictated(
            #[trigger] less[i],
        ) by {
            assert(less[i] == words[i]);
        }
        law_dictation_is_typed_word_for_word(state, less, now);
        let before = after_dictation(state, less, now);
        let end = after_dictation(state, words, now);
        assert(protocol::dictated(words[words.len() - 1]));
        assert(end.1 =~= before.1.push(ActionModel::TypeWord(words.last())));
        assert forall|i: int| 0 <= i < words.len() implies #[trigger] end.1[i]
            == ActionModel::TypeWord(words[i]) by {
            if i < less.len() {
                assert(before.1[i] == ActionModel::TypeWord(less[i]));
            }
        }
        assert(state.buffer.paragraph + words =~= (state.buffer.paragraph + less).push(
            words.last(),
        ));
    }
}

/// While a session types: five seconds of silence with two words or more lead to the correction
/// of the paragraph, after late words were waited for; a second and a half with two words or
/// more in the chunk to the correction of the chunk; less leads to nothing.
pub proof fn law_pauses_while_typing(state: SessionModel, now: nat)
    requires
        !state.preview,
        state.phase == PhaseModel::Idle,
        now >= state.last_word,
    ensures
        ({
            let next = state.on_tick(true, now);
            let silence = now - state.last_word;
            let long = silence >= 5_000_000_000 && state.buffer.paragraph.len() >= 2;
            let short = silence >= 1_500_000_000 && state.buffer.chunk.len() >= 2;
            &&& long ==> {
                &&& next.1 == seq![
                    ActionModel::NotifyProcessing,
                    ActionModel::SetCapturing(false),
                    ActionModel::Drain(
                        DrainPlan {
                            reason: DrainReason::Silence,
                            settle: 0,
                            poll: 120,
                            deadline: 800,
                        },
                    ),
                ]
                &&& next.0.phase == PhaseModel::Draining(DrainReason::Silence)
                &&& next.0.buffer == state.buffer
            }
            &&& !long && short ==> {
                &&& next.1 == seq![
                    ActionModel::WriteStatus(Status::Processing),
                    ActionModel::AskSentence(text::sentence(state.buffer.chunk)),
                ]
                &&& next.0.phase == (PhaseModel::TypedChunk {
                    words: state.buffer.chunk,
                    paused: true,
                })
                &&& next.0.buffer.chunk.len() == 0
                &&& next.0.buffer.paragraph == state.buffer.paragraph
            }
            &&& !long && !short ==> next.1.len() == 0 && next.0 == state
        }),
{
}

/// In preview mode a second and a half of silence with two words or more in the chunk leads to
/// its correction in the overlay; else ten seconds with words in the buffer to a commit and a
/// pause; less leads to nothing.
pub proof fn law_pauses_in_preview(state: SessionModel, now: nat)
    requires
        state.preview,
        state.overlay_open,
        state.phase == PhaseModel::Idle,
        now >= state.last_word,
    ensures
        ({
            let next = state.on_tick(true, now);
            let silence = (now - state.last_word) as nat;
            let short = silence >= 1_500_000_000 && state.buffer.chunk.len() >= 2;
            let long = silence >= 10_000_000_000 && state.buffer.paragraph.len() > 0;
            &&& short ==> {
                &&& next.1 == seq![
                    ActionModel::OverlayStatus(OverlayStatus::Correcting),
                    ActionModel::WriteStatus(Status::Processing),
                    ActionModel::AskSentence(text::sentence(state.buffer.chunk)),
                ]
                &&& next.0.phase is OverlayChunk
                &&& next.0.phase->OverlayChunk_words == state.buffer.chunk
                &&& state.overlay_words >= state.buffer.chunk.len()
                    ==> next.0.phase->OverlayChunk_start + state.buffer.chunk.len()
                    == state.overlay_words
                &&& next.0.phase->OverlayChunk_silence == silence
                &&& next.0.buffer.chunk.len() == 0
                &&& next.0.buffer.paragraph == state.buffer.paragraph
            }
            &&& !short && long ==> {
                &&& next.1 == seq![ActionModel::OverlayCommit, ActionModel::SetCapturing(false)]
                &&& next.0.phase == PhaseModel::Idle
                &&& next.0.buffer.paragraph.len() == 0
                &&& next.0.buffer.chunk.len() == 0
                &&& next.0.overlay_words == 0
            }
            &&& !short && !long ==> next.1.len() == 0 && next.0 == state
        }),
{
    let next = state.on_tick(true, now);
    if now - state.last_word >= 1_500_000_000 && state.buffer.chunk.len() >= 2 {
        assert(next.1 =~= seq![
            ActionModel::OverlayStatus(OverlayStatus::Correcting),
            ActionModel::WriteStatus(Status::Processing),
            ActionModel::AskSentence(text::sentence(state.buffer.chunk)),
        ]);
    }
}

/// A reply takes the place of a text exactly where there is one, it differs and it is similar
/// enough.
pub proof fn law_which_replies_replace(
    original: Seq<char>,
    corrected: Seq<char>,
    profile: CorrectionProfile,
)
    ensures
        !session::replaces(original, None, profile),
        !session::replaces(original, Some(original), profile),
        corrected != original ==> (session::replaces(original, Some(corrected), profile)
            <==> similarity::similar(
            similarity::compared_words(original),
            similarity::compared_words(corrected),
            profile,
        )),
{
}

/// A correction of a typed chunk is retyped as it came, for as many characters as arrived of the
/// chunk and one space; when it was typed, its words are those of the paragraph.
pub proof fn law_chunks_are_retyped(
    state: SessionModel,
    words: Seq<Seq<char>>,
    corrected: Seq<char>,
    paused: bool,
    now: nat,
    later: nat,
)
    requires
        state.phase == (PhaseModel::TypedChunk { words, paused }),
        session::replaces(text::sentence(words), Some(corrected), state.profile),
        state.keyboard.arriving(text::sentence(words)).len() < usize::MAX,
    ensures
        ({
            let replied = state.on_reply(Some(corrected), now);
            let backspaces = state.keyboard.arriving(text::sentence(words)).len() + 1;
            &&& replied.1 == seq![ActionModel::Retype { backspaces, text: corrected }]
            &&& replied.0.buffer == state.buffer
            &&& replied.0.on_typed(true, later).0.buffer == state.buffer.corrected(words, corrected)
            &&& replied.0.on_typed(false, later).0.buffer == state.buffer
            &&& replied.0.on_typed(true, later).0.phase == PhaseModel::Idle
            &&& replied.0.on_typed(false, later).0.phase == PhaseModel::Idle
            &&& !paused ==> replied.0.on_typed(true, later).1.len() == 0 && replied.0.on_typed(
                false,
                later,
            ).1.len() == 0
            &&& paused ==> replied.0.on_typed(true, later).1 == seq![
                ActionModel::WriteStatus(Status::Listening),
            ] && replied.0.on_typed(false, later).1 == seq![ActionModel::Fail]
        }),
{
}

/// The correction of a chunk in the open overlay goes there as it came, for the place and the
/// number of words of the chunk; without a correction nothing does. Either way the session
/// listens again.
pub proof fn law_chunks_are_replaced_in_the_overlay(
    state: SessionModel,
    words: Seq<Seq<char>>,
    start: nat,
    silence: nat,
    reply: Option<Seq<char>>,
    now: nat,
)
    requires
        state.overlay_open,
        state.phase == (PhaseModel::OverlayChunk { words, start, silence }),
        silence < 10_000_000_000,
    ensures
        ({
            let next = state.on_reply(reply, now);
            let listening = seq![
                ActionModel::OverlayStatus(OverlayStatus::Listening),
                ActionModel::WriteStatus(Status::Listening),
            ];
            &&& next.0.phase == PhaseModel::Idle
            &&& next.0.last_word == now
            &&& session::replaces(text::sentence(words), reply, state.profile) ==> {
                &&& next.1 == seq![
                    ActionModel::OverlayChunk {
                        corrected: reply->0,
                        start,
                        original_len: words.len(),
                    },
                ] + listening
                &&& next.0.buffer == state.buffer.corrected(words, reply->0)
                &&& state.overlay_words >= words.len() && state.overlay_words + text::words(
                    reply->0,
                ).len() <= usize::MAX ==> next.0.overlay_words + words.len()
                    == state.overlay_words + text::words(reply->0).len()
            }
            &&& !session::replaces(text::sentence(words), reply, state.profile) ==> {
                &&& next.1 == listening
                &&& next.0.buffer == state.buffer
                &&& next.0.overlay_words == state.overlay_words
            }
        }),
{
    let next = state.on_reply(reply, now);
    let listening = seq![
        ActionModel::OverlayStatus(OverlayStatus::Listening),
        ActionModel::WriteStatus(Status::Listening),
    ];
    if session::replaces(text::sentence(words), reply, state.profile) {
        assert(next.1 =~= seq![
            ActionModel::OverlayChunk { corrected: reply->0, start, original_len: words.len() },
        ] + listening);
    } else {
        assert(next.1 =~= listening);
    }
}

/// The correction of a paragraph: while typing it is retyped as it came, for as many characters
/// as arrived and one space; in preview mode it goes to the overlay, which is then committed.
pub proof fn law_paragraphs_are_replaced(
    state: SessionModel,
    original: Seq<char>,
    reason: DrainReason,
    corrected: Seq<char>,
    now: nat,
)
    requires
        state.phase == (PhaseModel::Paragraph { original, reason }),
        session::replaces(original, Some(corrected), state.profile),
        state.keyboard.arriving(original).len() < usize::MAX,
    ensures
        ({
            let next = state.on_reply(Some(corrected), now);
            let backspaces = state.keyboard.arriving(original).len() + 1;
            &&& !state.preview ==> next.1 == seq![
                ActionModel::Retype { backspaces, text: corrected },
            ]
            &&& state.preview && state.overlay_open && reason == DrainReason::ToggleOff ==> next.1
                == seq![
                ActionModel::OverlayCorrection(corrected),
                ActionModel::OverlayCommit,
                ActionModel::AwaitOverlay,
            ]
        }),
{
    let next = state.on_reply(Some(corrected), now);
    if state.preview && state.overlay_open && reason == DrainReason::ToggleOff {
        assert(next.1 =~= seq![
            ActionModel::OverlayCorrection(corrected),
            ActionModel::OverlayCommit,
            ActionModel::AwaitOverlay,
        ]);
    }
}

/// Once late words have come, a checkpoint goes to the overlay; a paragraph of two words or more
/// is asked for as a whole, and the next begins without words.
pub proof fn law_drained_words_are_used(state: SessionModel, reason: DrainReason, now: nat)
    requires
        state.phase == PhaseModel::Draining(reason),
    ensures
        ({
            let next = state.on_drained(now);
            let ask = seq![
                ActionModel::WriteStatus(Status::Processing),
                ActionModel::AskParagraph(text::sentence(state.buffer.paragraph)),
            ];
            &&& reason == DrainReason::Checkpoint && state.overlay_open ==> {
                &&& next.1 == seq![ActionModel::OverlayCheckpoint]
                &&& next.0.phase == PhaseModel::Idle
                &&& next.0.overlay_words == 0
                &&& next.0.buffer.paragraph.len() == 0
            }
            &&& reason != DrainReason::Checkpoint && state.buffer.paragraph.len() >= 2 ==> {
                &&& next.0.phase == (PhaseModel::Paragraph {
                    original: text::sentence(state.buffer.paragraph),
                    reason,
                })
                &&& next.0.buffer.paragraph.len() == 0
                &&& next.0.buffer.chunk.len() == 0
                &&& reason == DrainReason::Silence || !state.preview ==> next.1 == ask
                &&& reason == DrainReason::ToggleOff && state.preview && state.overlay_open
                    ==> next.1 == seq![ActionModel::OverlayStatus(OverlayStatus::Correcting)] + ask
            }
            &&& reason == DrainReason::ToggleOff && state.buffer.paragraph.len() < 2
                && state.preview && state.overlay_open ==> next.1 == seq![
                ActionModel::OverlayCommit,
                ActionModel::AwaitOverlay,
            ]
            &&& reason == DrainReason::ToggleOff && state.buffer.paragraph.len() < 2
                && !state.preview ==> next.1.len() == 0 && next.0.phase == PhaseModel::Idle
            &&& reason == DrainReason::ToggleOff && state.preview && !state.overlay_open ==> {
                &&& state.buffer.paragraph.len() >= 2 ==> next.1 == ask
                &&& state.buffer.paragraph.len() < 2 ==> next.1 == seq![
                    ActionModel::WriteStatus(Status::Paused),
                ] && next.0.phase == PhaseModel::Idle
            }
            &&& reason == DrainReason::Silence && state.buffer.paragraph.len() < 2 ==> {
                &&& next.1 == seq![
                    ActionModel::WriteStatus(Status::Processing),
                    ActionModel::WriteStatus(Status::Listening),
                    ActionModel::SetCapturing(true),
                ]
                &&& next.0.phase == PhaseModel::Idle
                &&& next.0.buffer == state.buffer
            }
        }),
{
    let next = state.on_drained(now);
    let ask = seq![
        ActionModel::WriteStatus(Status::Processing),
        ActionModel::AskParagraph(text::sentence(state.buffer.paragraph)),
    ];
    if reason != DrainReason::Checkpoint && state.buffer.paragraph.len() >= 2 {
        if reason == DrainReason::Silence || !state.preview {
            assert(next.1 =~= ask);
        } else if state.overlay_open {
            assert(next.1 =~= seq![ActionModel::OverlayStatus(OverlayStatus::Correcting)] + ask);
        } else {
            assert(next.1 =~= ask);
        }
    } else if reason == DrainReason::Silence {
        assert(next.1 =~= seq![
            ActionModel::WriteStatus(Status::Processing),
            ActionModel::WriteStatus(Status::Listening),
            ActionModel::SetCapturing(true),
        ]);
    }
}

/// When the correction of a paragraph was typed, or could not be, the session listens again
/// after silence, and pauses once capturing stopped.
pub proof fn law_after_a_paragraph(state: SessionModel, success: bool, now: nat)
    ensures
        state.phase == PhaseModel::RetypingParagraph(DrainReason::Silence) ==> {
            let next = state.on_typed(success, now);
            &&& next.0.phase == PhaseModel::Idle
            &&& next.0.last_word == now
            &&& next.0.buffer == state.buffer
            &&& next.1 == seq![
                ActionModel::WriteStatus(Status::Listening),
                ActionModel::SetCapturing(true),
            ]
        },
        state.phase == PhaseModel::RetypingParagraph(DrainReason::ToggleOff) ==> {
            let next = state.on_typed(success, now);
            &&& next.0.phase == PhaseModel::Idle
            &&& next.0.buffer == state.buffer
            &&& next.1 == seq![ActionModel::WriteStatus(Status::Paused)]
        },
{
}

/// How long late words are waited for: after capturing stopped at least three tenths of a second
/// and two tenths more than the time of grace before the first read, and up to six tenths more
/// than it in all.
pub proof fn law_how_long_late_words_are_waited_for(grace: u64)
    ensures
        DrainPlan::of(DrainReason::Checkpoint, grace) == (DrainPlan {
            reason: DrainReason::Checkpoint,
            settle: 100,
            poll: 100,
            deadline: 0,
        }),
        DrainPlan::of(DrainReason::Silence, grace) == (DrainPlan {
            reason: DrainReason::Silence,
            settle: 0,
            poll: 120,
            deadline: 800,
        }),
        grace <= 100 ==> DrainPlan::of(DrainReason::ToggleOff, grace).settle == 300,
        100 <= grace <= u64::MAX - 600 ==> DrainPlan::of(DrainReason::ToggleOff, grace).settle
            == grace + 200,
        grace <= u64::MAX - 600 ==> DrainPlan::of(DrainReason::ToggleOff, grace).deadline == grace
            + 600,
        DrainPlan::of(DrainReason::ToggleOff, grace).settle >= 300,
        DrainPlan::of(DrainReason::ToggleOff, grace).deadline >= grace,
        DrainPlan::of(DrainReason::ToggleOff, grace).poll == 120,
        DrainPlan::of(DrainReason::ToggleOff, grace).reason == DrainReason::ToggleOff,
{
}

/// Requests to an idle session: a checkpoint and a stop wait for late words, a commit and a
/// discarded session go to the open overlay and stop capturing, and a closed overlay is opened
/// in preview mode.
pub proof fn law_requests_of_an_idle_session(state: SessionModel, success: bool)
    requires
        state.phase == PhaseModel::Idle,
    ensures
        state.overlay_open ==> {
            &&& state.on_checkpoint().1 == seq![
                ActionModel::Drain(DrainPlan::of(DrainReason::Checkpoint, state.grace)),
            ]
            &&& state.on_checkpoint().0.phase == PhaseModel::Draining(DrainReason::Checkpoint)
            &&& state.on_checkpoint().0.buffer == state.buffer
            &&& state.on_commit().1 == seq![
                ActionModel::OverlayCommit,
                ActionModel::SetCapturing(false),
            ]
            &&& state.on_discard().1 == seq![
                ActionModel::OverlayClose,
                ActionModel::SetCapturing(false),
                ActionModel::WriteStatus(Status::Paused),
            ]
            &&& state.if_open(ActionModel::OverlayClose) == seq![ActionModel::OverlayClose]
        },
        !state.overlay_open ==> {
            &&& state.on_checkpoint() == (state, Seq::<ActionModel>::empty())
            &&& state.on_commit() == (state, Seq::<ActionModel>::empty())
            &&& state.on_discard() == (state, Seq::<ActionModel>::empty())
            &&& state.if_open(ActionModel::OverlayClose).len() == 0
        },
        state.on_toggle_off().1 == seq![
            ActionModel::Drain(DrainPlan::of(DrainReason::ToggleOff, state.grace)),
        ],
        state.on_toggle_off().0.phase == PhaseModel::Draining(DrainReason::ToggleOff),
        state.on_toggle_off().0.buffer == state.buffer,
        state.preview && !state.overlay_open ==> {
            &&& state.on_respawn().1 == seq![ActionModel::OverlaySpawn]
            &&& state.on_respawn().0.on_spawned(success).overlay_open == success
            &&& state.on_respawn().0.on_spawned(success).phase == PhaseModel::Idle
            &&& state.on_respawn().0.on_spawned(success).buffer == state.buffer
        },
        !state.preview || state.overlay_open ==> state.on_respawn() == (
            state,
            Seq::<ActionModel>::empty(),
        ),
{
}

/// While something else is waited for, requests change nothing.
pub proof fn law_requests_wait_their_turn(state: SessionModel, capturing: bool, now: nat)
    requires
        state.phase != PhaseModel::Idle,
    ensures
        state.on_checkpoint() == (state, Seq::<ActionModel>::empty()),
        state.on_toggle_off() == (state, Seq::<ActionModel>::empty()),
        state.on_commit() == (state, Seq::<ActionModel>::empty()),
        state.on_discard() == (state, Seq::<ActionModel>::empty()),
        state.on_respawn() == (state, Seq::<ActionModel>::empty()),
        state.on_tick(capturing, now) == (state, Seq::<ActionModel>::empty()),
{
}

/// A text that the overlay hands out is pasted as it is, whatever its length, and changes
/// nothing.
pub proof fn law_handed_out_text_is_pasted(state: SessionModel, pasted: Seq<char>)
    requires
        state.phase == PhaseModel::Idle || state.phase == PhaseModel::Closing,
    ensures
        state.on_response(ResponseModel::PasteText(pasted)) == (
            state,
            seq![ActionModel::Paste(pasted)],
        ),
        state.on_response(ResponseModel::Cancel) == (state, Seq::<ActionModel>::empty()),
{
}

/// A session begins idle, without words and without an overlay, and collects chunks in technical
/// text only.
pub proof fn law_sessions_begin_empty(
    preview: bool,
    profile: CorrectionProfile,
    keyboard: KeyboardKind,
    grace: u64,
    now: nat,
)
    ensures
        ({
            let start = SessionModel::start(preview, profile, keyboard, grace, now);
            &&& start.phase == PhaseModel::Idle
            &&& start.preview == preview
            &&& start.profile == profile
            &&& start.keyboard == keyboard
            &&& start.grace == grace
            &&& start.last_word == now
            &&& !start.overlay_open
            &&& start.overlay_words == 0
            &&& start.buffer == CorrectionModel::start(profile)
            &&& start.buffer.paragraph.len() == 0
            &&& start.buffer.chunk.len() == 0
            &&& start.buffer.chunks <==> profile == CorrectionProfile::Technical
        }),
{
}

/// Without a reply a typed chunk stays as it is, and after a pause the session listens again; a
/// paragraph stays as it is, and the session listens again after silence, pauses once capturing
/// stopped, and in preview mode commits the overlay.
pub proof fn law_without_a_reply(state: SessionModel, now: nat)
    ensures
        state.phase is TypedChunk ==> {
            let next = state.on_reply(None, now);
            &&& next.0.phase == PhaseModel::Idle
            &&& next.0.buffer == state.buffer
            &&& state.phase->TypedChunk_paused ==> next.0.last_word == now && next.1 == seq![
                ActionModel::WriteStatus(Status::Listening),
            ]
            &&& !state.phase->TypedChunk_paused ==> next.0.last_word == state.last_word
                && next.1.len() == 0
        },
        state.phase is Paragraph && state.phase->Paragraph_reason == DrainReason::Silence ==> {
            let next = state.on_reply(None, now);
            &&& next.0.phase == PhaseModel::Idle
            &&& next.0.buffer == state.buffer
            &&& next.0.last_word == now
            &&& next.1 == seq![
                ActionModel::WriteStatus(Status::Listening),
                ActionModel::SetCapturing(true),
            ]
        },
        state.phase is Paragraph && state.phase->Paragraph_reason == DrainReason::ToggleOff
            && !state.preview ==> {
            let next = state.on_reply(None, now);
            &&& next.0.phase == PhaseModel::Idle
            &&& next.0.buffer == state.buffer
            &&& next.1 == seq![ActionModel::WriteStatus(Status::Paused)]
        },
        state.phase is Paragraph && state.phase->Paragraph_reason == DrainReason::ToggleOff
            && state.preview && state.overlay_open ==> {
            let next = state.on_reply(None, now);
            &&& next.0.phase == PhaseModel::Closing
            &&& next.1 == seq![ActionModel::OverlayCommit, ActionModel::AwaitOverlay]
        },
{
    let next = state.on_reply(None, now);
    if state.phase is Paragraph && state.phase->Paragraph_reason == DrainReason::ToggleOff
        && state.preview && state.overlay_open {
        assert(next.1 =~= seq![ActionModel::OverlayCommit, ActionModel::AwaitOverlay]);
    }
}

/// Words that come while something is being typed or corrected on the screen, and a pause that
/// has not begun, change nothing.
pub proof fn law_nothing_in_between(
    state: SessionModel,
    word: Seq<char>,
    capturing: bool,
    now: nat,
)
    ensures
        state.phase is Typing || state.phase is TypedChunk || state.phase is Retyping || state.phase
            is Paragraph || state.phase is RetypingParagraph || state.phase == PhaseModel::Spawning
            || state.phase == PhaseModel::Closing ==> state.on_word(word, capturing, now) == (
            state,
            Seq::<ActionModel>::empty(),
        ),
        now <= state.last_word ==> state.on_tick(capturing, now) == (
            state,
            Seq::<ActionModel>::empty(),
        ),
{
}

} // verus!
