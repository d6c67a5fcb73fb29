//! What holds of a session and its overlay across events.

use crate::correction_buffer::CorrectionProfile;
use crate::dictation::Status;
use crate::gtk_overlay::{CommandModel, OverlayModel, OverlayStatus, ResponseModel};
use crate::overlay_laws;
use crate::preview_buffer::PreviewModel;
use crate::session;
use crate::session::{ActionModel, DrainReason, Outcome, PhaseModel, SessionModel};
use crate::session_laws;
use crate::text;
use crate::virtual_keyboard::KeyboardKind;
use vstd::prelude::*;

verus! {

/// What a session's actions do to the overlay's buffer.
pub open spec fn on_overlay(buffer: PreviewModel, action: ActionModel) -> PreviewModel {
    match action {
        ActionModel::OverlayWord(word) => buffer.with_word(word),
        ActionModel::OverlayCorrection(corrected) => buffer.with_correction(corrected),
        ActionModel::OverlayChunk { corrected, start, original_len } => buffer.with_chunk(
            start,
            original_len,
            corrected,
        ),
        ActionModel::OverlayCheckpoint => buffer.after_checkpoint(),
        ActionModel::OverlayCommit => buffer.after_commit(),
        ActionModel::OverlayClose => PreviewModel::empty(),
        _ => buffer,
    }
}

/// What several actions do to the overlay's buffer.
pub open spec fn all_on_overlay(buffer: PreviewModel, actions: Seq<ActionModel>) -> PreviewModel
    decreases actions.len(),
{
    if actions.len() == 0 {
        buffer
    } else {
        on_overlay(all_on_overlay(buffer, actions.drop_last()), actions.last())
    }
}

/// What an action does to the overlay's buffer is what the overlay does on the command that
/// the action stands for.
pub proof fn law_overlay_actions_are_commands(overlay: OverlayModel, word: Seq<char>)
    ensures
        on_overlay(overlay.buffer, ActionModel::OverlayWord(word)) == overlay.handled(
            CommandModel::Word(word),
        ).0.buffer,
        on_overlay(overlay.buffer, ActionModel::OverlayCorrection(word)) == overlay.handled(
            CommandModel::Correction(word),
        ).0.buffer,
        forall|start: nat, original_len: nat|
            on_overlay(
                overlay.buffer,
                ActionModel::OverlayChunk { corrected: word, start, original_len },
            ) == #[trigger] overlay.handled(
                CommandModel::ChunkCorrection { corrected: word, start, original_len },
            ).0.buffer,
        on_overlay(overlay.buffer, ActionModel::OverlayCheckpoint) == overlay.handled(
            CommandModel::Checkpoint,
        ).0.buffer,
        on_overlay(overlay.buffer, ActionModel::OverlayCommit) == overlay.handled(
            CommandModel::Commit,
        ).0.buffer,
        on_overlay(overlay.buffer, ActionModel::OverlayClose) == overlay.handled(
            CommandModel::Close,
        ).0.buffer,
{
}

/// Actions in two parts.
proof fn lemma_overlay_concat(
    buffer: PreviewModel,
    first: Seq<ActionModel>,
    second: Seq<ActionModel>,
)
    ensures
        all_on_overlay(buffer, first + second) == all_on_overlay(
            all_on_overlay(buffer, first),
            second,
        ),
    decreases second.len(),
{
    if second.len() == 0 {
        assert(first + second =~= first);
    } else {
        lemma_overlay_concat(buffer, first, second.drop_last());
        assert((first + second).drop_last() =~= first + second.drop_last());
    }
}

/// A single action.
proof fn lemma_one_on_overlay(buffer: PreviewModel, action: ActionModel)
    ensures
        all_on_overlay(buffer, seq![action]) == on_overlay(buffer, action),
{
    reveal_with_fuel(all_on_overlay, 2);
    assert(seq![action].drop_last() =~= Seq::empty());
}

/// Two actions.
proof fn lemma_two_on_overlay(buffer: PreviewModel, first: ActionModel, second: ActionModel)
    ensures
        all_on_overlay(buffer, seq![first, second]) == on_overlay(
            on_overlay(buffer, first),
            second,
        ),
{
    lemma_one_on_overlay(buffer, first);
    assert(seq![first, second].drop_last() =~= seq![first]);
}

/// Whether a list of words ends with another.
pub open spec fn ends_with_words(words: Seq<Seq<char>>, end: Seq<Seq<char>>) -> bool {
    &&& end.len() <= words.len()
    &&& words.skip(words.len() - end.len()) == end
}

/// Whether a session shows words in its overlay: in preview mode, while the overlay is open
/// and no commit is waited for.
pub open spec fn previewing(state: SessionModel) -> bool {
    &&& state.preview
    &&& state.overlay_open
    &&& match state.phase {
        PhaseModel::Idle | PhaseModel::OverlayChunk { .. } => true,
        PhaseModel::Draining(reason) => reason != DrainReason::Silence,
        PhaseModel::Paragraph { original, reason } => reason == DrainReason::ToggleOff,
        _ => false,
    }
}

/// Whether the session knows the number of words in the overlay, the chunk is the end of
/// them, and a chunk that is being corrected stands right before it, where the session holds
/// it to be.
pub open spec fn in_step(state: SessionModel, overlay: PreviewModel) -> bool {
    &&& state.overlay_words == overlay.active.len()
    &&& ends_with_words(overlay.active, state.buffer.chunk)
    &&& state.phase matches PhaseModel::OverlayChunk { words, start, silence } ==> {
        &&& start + words.len() + state.buffer.chunk.len() == overlay.active.len()
        &&& overlay.active.skip(start as int) == words + state.buffer.chunk
    }
}

/// Whether an event keeps session and overlay in step, or leads to a commit that is waited
/// for.
pub open spec fn keeps_step(outcome: Outcome, overlay: PreviewModel) -> bool {
    ||| outcome.0.phase == PhaseModel::Closing
    ||| previewing(outcome.0) && in_step(outcome.0, all_on_overlay(overlay, outcome.1))
}

/// Session and overlay stay in step when a word comes.
pub proof fn law_words_keep_step(
    state: SessionModel,
    overlay: PreviewModel,
    word: Seq<char>,
    capturing: bool,
    now: nat,
)
    requires
        previewing(state),
        session_laws::chunks_in_place(state),
        in_step(state, overlay),
    ensures
        keeps_step(state.on_word(word, capturing, now), overlay),
{
    let next = state.on_word(word, capturing, now);
    if next.1.len() > 0 {
        lemma_one_on_overlay(overlay, ActionModel::OverlayWord(word));
        let fresh = overlay.with_word(word);
        let chunk = next.0.buffer.chunk;
        assert(fresh.active.skip(fresh.active.len() - chunk.len()) =~= chunk);
        if let PhaseModel::OverlayChunk { words, start, silence } = state.phase {
            assert(fresh.active.skip(start as int) =~= overlay.active.skip(start as int).push(
                word,
            ));
            assert(words + chunk =~= (words + state.buffer.chunk).push(word));
        }
    }
}

/// Session and overlay stay in step when time passes.
pub proof fn law_ticks_keep_step(
    state: SessionModel,
    overlay: PreviewModel,
    capturing: bool,
    now: nat,
)
    requires
        previewing(state),
        in_step(state, overlay),
    ensures
        keeps_step(state.on_tick(capturing, now), overlay),
{
    let next = state.on_tick(capturing, now);
    let chunk = state.buffer.chunk;
    if next.0.phase is OverlayChunk && state.phase == PhaseModel::Idle {
        let start = (overlay.active.len() - chunk.len()) as int;
        assert(overlay.active.skip(start) =~= chunk + Seq::empty());
        assert(overlay.active.skip(overlay.active.len() as int) =~= Seq::empty());
        let ask = ActionModel::AskSentence(text::sentence(chunk));
        let processing = ActionModel::WriteStatus(Status::Processing);
        let open = state.if_open(ActionModel::OverlayStatus(OverlayStatus::Correcting));
        lemma_overlay_concat(overlay, open, seq![processing, ask]);
        lemma_one_on_overlay(overlay, open[0]);
        lemma_two_on_overlay(overlay, processing, ask);
    } else {
        lemma_auto_commit_keeps_step(state, overlay, state.silence(now));
    }
}

/// A commit after a long silence leaves an empty overlay and an empty buffer.
proof fn lemma_auto_commit_keeps_step(state: SessionModel, overlay: PreviewModel, silence: nat)
    requires
        previewing(state),
        in_step(state, overlay),
    ensures
        state.phase == PhaseModel::Idle ==> keeps_step(state.auto_committed(silence), overlay),
{
    lemma_two_on_overlay(
        overlay,
        ActionModel::OverlayCommit,
        ActionModel::SetCapturing(false),
    );
    let after = overlay.after_commit();
    assert(after.active =~= Seq::empty());
    assert(after.active.skip(0) =~= Seq::empty());
}

/// Session and overlay stay in step when a reply comes, whatever number of words it has: the
/// correction of a chunk in the overlay is counted.
pub proof fn law_replies_keep_step(
    state: SessionModel,
    overlay: PreviewModel,
    reply: Option<Seq<char>>,
    now: nat,
)
    requires
        previewing(state),
        in_step(state, overlay),
        reply matches Some(corrected) ==> overlay.active.len() + text::words(corrected).len()
            <= usize::MAX,
    ensures
        keeps_step(state.on_reply(reply, now), overlay),
{
    if let PhaseModel::OverlayChunk { words, start, silence } = state.phase {
        let listening = ActionModel::OverlayStatus(OverlayStatus::Listening);
        let written = ActionModel::WriteStatus(Status::Listening);
        let chunk = state.buffer.chunk;
        let idle = SessionModel { phase: PhaseModel::Idle, last_word: now, ..state };
        if session::replaces(text::sentence(words), reply, state.profile) {
            let corrected = reply->0;
            let fresh = text::words(corrected);
            let sent = ActionModel::OverlayChunk { corrected, start, original_len: words.len() };
            let applied = SessionModel {
                buffer: state.buffer.corrected(words, corrected),
                overlay_words: state.recounted(words.len(), fresh.len()),
                ..idle
            };
            let after = overlay.with_chunk(start, words.len(), corrected);
            let place = (start + words.len()) as int;
            assert(overlay.active.skip(place) =~= overlay.active.skip(start as int).skip(
                words.len() as int,
            ));
            assert((words + chunk).skip(words.len() as int) =~= chunk);
            assert(after.active == overlay.active.take(start as int) + fresh + chunk);
            assert(after.active.skip(after.active.len() - chunk.len()) =~= chunk);
            assert(in_step(applied, after));
            let last = applied.auto_committed(silence);
            let first = seq![sent] + seq![listening] + seq![written];
            lemma_overlay_concat(overlay, first, last.1);
            lemma_overlay_concat(overlay, seq![sent] + seq![listening], seq![written]);
            lemma_overlay_concat(overlay, seq![sent], seq![listening]);
            lemma_one_on_overlay(overlay, sent);
            lemma_one_on_overlay(after, listening);
            lemma_one_on_overlay(after, written);
            lemma_auto_commit_keeps_step(applied, after, silence);
            assert(state.on_reply(reply, now).1 =~= first + last.1);
        } else {
            let last = idle.auto_committed(silence);
            let first = seq![listening] + seq![written];
            lemma_overlay_concat(overlay, first, last.1);
            lemma_overlay_concat(overlay, seq![listening], seq![written]);
            lemma_one_on_overlay(overlay, listening);
            lemma_one_on_overlay(overlay, written);
            lemma_auto_commit_keeps_step(idle, overlay, silence);
            assert(state.on_reply(reply, now).1 =~= first + last.1);
        }
    }
}

/// Session and overlay stay in step when words that were on their way have come and on
/// requests to paste, to close and to stop; an answer of the overlay changes nothing unless
/// it closed.
pub proof fn law_requests_keep_step(
    state: SessionModel,
    overlay: PreviewModel,
    response: ResponseModel,
    success: bool,
    now: nat,
)
    requires
        previewing(state),
        in_step(state, overlay),
    ensures
        keeps_step(state.on_drained(now), overlay),
        keeps_step(state.on_checkpoint(), overlay),
        keeps_step(state.on_toggle_off(), overlay),
        keeps_step(state.on_commit(), overlay),
        keeps_step(state.on_discard(), overlay),
        keeps_step(state.on_respawn(), overlay),
        keeps_step(state.on_typed(success, now), overlay),
        response != ResponseModel::Closed ==> keeps_step(state.on_response(response), overlay),
{
    let none = Seq::<ActionModel>::empty();
    assert(all_on_overlay(overlay, none) == overlay);
    lemma_drained_keeps_step(state, overlay, now);
    let pasted = state.on_response(response).1;
    if pasted.len() > 0 {
        lemma_one_on_overlay(overlay, pasted[0]);
        assert(pasted =~= seq![pasted[0]]);
    }
    if state.phase == PhaseModel::Idle {
        lemma_one_on_overlay(overlay, state.on_checkpoint().1[0]);
        lemma_one_on_overlay(overlay, state.on_toggle_off().1[0]);
        lemma_two_on_overlay(
            overlay,
            ActionModel::OverlayCommit,
            ActionModel::SetCapturing(false),
        );
        let after = overlay.after_commit();
        assert(after.active =~= Seq::empty());
        assert(after.active.skip(0) =~= Seq::empty());
        let discarded = state.on_discard().1;
        assert(discarded.drop_last() =~= seq![
            ActionModel::OverlayClose,
            ActionModel::SetCapturing(false),
        ]);
        lemma_two_on_overlay(overlay, ActionModel::OverlayClose, ActionModel::SetCapturing(false));
        assert(PreviewModel::empty().active.skip(0) =~= Seq::empty());
    }
}

/// Session and overlay stay in step when words that were on their way have come.
proof fn lemma_drained_keeps_step(state: SessionModel, overlay: PreviewModel, now: nat)
    requires
        previewing(state),
        in_step(state, overlay),
    ensures
        keeps_step(state.on_drained(now), overlay),
{
    let drained = state.on_drained(now);
    if state.phase == PhaseModel::Draining(DrainReason::Checkpoint) {
        lemma_one_on_overlay(overlay, ActionModel::OverlayCheckpoint);
        let after = overlay.after_checkpoint();
        assert(after.active =~= Seq::empty());
        assert(after.active.skip(0) =~= Seq::empty());
    } else if state.phase == PhaseModel::Draining(DrainReason::ToggleOff)
        && state.buffer.paragraph.len() >= 2 {
        let correcting = ActionModel::OverlayStatus(OverlayStatus::Correcting);
        let processing = ActionModel::WriteStatus(Status::Processing);
        let ask = ActionModel::AskParagraph(text::sentence(state.buffer.paragraph));
        lemma_overlay_concat(overlay, seq![correcting], seq![processing, ask]);
        lemma_one_on_overlay(overlay, correcting);
        lemma_two_on_overlay(overlay, processing, ask);
        assert(drained.1 =~= seq![correcting] + seq![processing, ask]);
        assert(overlay.active.skip(overlay.active.len() as int) =~= Seq::empty());
    }
}

/// What holds of a session in preview mode: without an overlay it remembers no words but those
/// that come late, and it waits only for what the overlay, a correction or late words give.
pub open spec fn words_need_overlay(state: SessionModel) -> bool {
    state.preview ==> match state.phase {
        PhaseModel::Idle => state.overlay_open || remembers_nothing(state),
        PhaseModel::Spawning => !state.overlay_open && remembers_nothing(state),
        PhaseModel::OverlayChunk { .. } | PhaseModel::Closing => state.overlay_open,
        PhaseModel::Draining(reason) => reason != DrainReason::Silence,
        PhaseModel::Paragraph { original, reason } => reason == DrainReason::ToggleOff,
        _ => false,
    }
}

/// Whether a session remembers no words and counts none in the overlay.
pub open spec fn remembers_nothing(state: SessionModel) -> bool {
    &&& state.overlay_words == 0
    &&& state.buffer.paragraph.len() == 0
    &&& state.buffer.chunk.len() == 0
}

/// A session starts without words, and no event leaves words in an idle session that has no
/// overlay for them.
pub proof fn law_words_need_an_overlay(
    state: SessionModel,
    preview: bool,
    profile: CorrectionProfile,
    keyboard: KeyboardKind,
    grace: u64,
    word: Seq<char>,
    reply: Option<Seq<char>>,
    response: ResponseModel,
    flag: bool,
    now: nat,
)
    requires
        words_need_overlay(state),
    ensures
        words_need_overlay(SessionModel::start(preview, profile, keyboard, grace, now)),
        words_need_overlay(state.on_word(word, flag, now).0),
        words_need_overlay(state.on_typed(flag, now).0),
        words_need_overlay(state.on_reply(reply, now).0),
        words_need_overlay(state.on_tick(flag, now).0),
        words_need_overlay(state.on_drained(now).0),
        words_need_overlay(state.on_checkpoint().0),
        words_need_overlay(state.on_toggle_off().0),
        words_need_overlay(state.on_commit().0),
        words_need_overlay(state.on_discard().0),
        words_need_overlay(state.on_respawn().0),
        words_need_overlay(state.on_spawned(flag)),
        words_need_overlay(state.on_response(response).0),
{
}

/// Session and overlay are in step when an overlay was opened.
pub proof fn law_opening_starts_in_step(state: SessionModel)
    requires
        state.preview,
        state.phase == PhaseModel::Spawning,
        words_need_overlay(state),
    ensures
        previewing(state.on_spawned(true)),
        in_step(state.on_spawned(true), PreviewModel::empty()),
{
    assert(PreviewModel::empty().active.skip(0) =~= state.buffer.chunk);
}

/// The correction of a chunk in the overlay lands on the words of that chunk; the words before
/// it and the words that came while it was being made stay as they are.
pub proof fn law_overlay_correction_lands_on_its_chunk(
    state: SessionModel,
    overlay: PreviewModel,
    corrected: Seq<char>,
)
    requires
        in_step(state, overlay),
        state.phase is OverlayChunk,
    ensures
        ({
            let words = state.phase->OverlayChunk_words;
            let start = state.phase->OverlayChunk_start;
            let kept = overlay.active.take(start as int);
            &&& overlay.active == kept + words + state.buffer.chunk
            &&& overlay.with_chunk(start, words.len(), corrected).active == kept + text::words(
                corrected,
            ) + state.buffer.chunk
        }),
{
    let words = state.phase->OverlayChunk_words;
    let start = state.phase->OverlayChunk_start;
    let kept = overlay.active.take(start as int);
    let chunk = state.buffer.chunk;
    assert(overlay.active =~= kept + overlay.active.skip(start as int));
    assert(overlay.active =~= kept + words + chunk);
    assert(overlay.active.skip((start + words.len()) as int) =~= chunk);
}

/// A session after several answers of the overlay, and what it hands out.
pub open spec fn after_responses(state: SessionModel, answers: Seq<ResponseModel>) -> Outcome
    decreases answers.len(),
{
    if answers.len() == 0 {
        (state, Seq::empty())
    } else {
        let before = after_responses(state, answers.drop_last());
        let last = before.0.on_response(answers.last());
        (last.0, before.1 + last.1)
    }
}

/// What is handed out for the text that a commit pastes.
pub open spec fn pasted_text(overlay: PreviewModel) -> Seq<ActionModel> {
    match overlay.commit_text() {
        Some(pasted) => seq![ActionModel::Paste(pasted)],
        None => Seq::empty(),
    }
}

/// The answers to a commit paste the text of the overlay and close it. A session that waits
/// for the commit is idle again and says that dictation is paused; an idle one stays idle.
pub proof fn law_answers_to_a_commit(state: SessionModel, overlay: OverlayModel)
    requires
        state.phase == PhaseModel::Closing || state.phase == PhaseModel::Idle,
    ensures
        ({
            let answers = overlay_laws::responses(overlay.handled(CommandModel::Commit).1);
            let end = after_responses(state, answers);
            &&& end.0.phase == PhaseModel::Idle
            &&& !end.0.overlay_open
            &&& state.phase == PhaseModel::Closing || state.overlay_open ==> remembers_nothing(
                end.0,
            )
            &&& state.phase == PhaseModel::Closing ==> {
                &&& end.1 == pasted_text(overlay.buffer).push(
                    ActionModel::WriteStatus(Status::Paused),
                )
            }
            &&& state.phase == PhaseModel::Idle ==> end.1 == pasted_text(overlay.buffer)
        }),
{
    overlay_laws::law_closing_is_answered(overlay);
    reveal_with_fuel(after_responses, 3);
    let answers = overlay_laws::responses(overlay.handled(CommandModel::Commit).1);
    let end = after_responses(state, answers);
    let paused = seq![ActionModel::WriteStatus(Status::Paused)];
    match overlay.buffer.commit_text() {
        Some(pasted) => {
            assert(answers.drop_last() =~= seq![ResponseModel::PasteText(pasted)]);
            assert(answers.drop_last().drop_last() =~= Seq::empty());
        },
        None => {
            assert(answers.drop_last() =~= Seq::empty());
        },
    }
    if state.phase == PhaseModel::Closing {
        assert(end.1 =~= pasted_text(overlay.buffer) + paused);
        assert(pasted_text(overlay.buffer) + paused =~= pasted_text(overlay.buffer).push(
            paused[0],
        ));
    } else {
        assert(end.1 =~= pasted_text(overlay.buffer));
    }
}

/// The answers to a close and to a request to close paste nothing; an idle session forgets the
/// overlay and the words that it showed.
pub proof fn law_answers_to_a_close(state: SessionModel, overlay: OverlayModel)
    requires
        state.phase == PhaseModel::Idle,
        state.overlay_open,
    ensures
        after_responses(state, overlay_laws::responses(overlay.handled(CommandModel::Close).1))
            == (state.without_overlay(), Seq::<ActionModel>::empty()),
        after_responses(state, overlay_laws::responses(overlay.close_requested().1)) == (
            state.without_overlay(),
            Seq::<ActionModel>::empty(),
        ),
{
    overlay_laws::law_closing_is_answered(overlay);
    reveal_with_fuel(after_responses, 2);
    let answers = seq![ResponseModel::Closed];
    assert(answers.drop_last() =~= Seq::empty());
    assert(after_responses(state, answers).1 =~= Seq::empty());
}

/// Once capturing was stopped in preview mode, the overlay ends up committed and closed, its
/// words forgotten, and the status says that dictation is paused, whatever comes of the
/// request.
pub proof fn law_toggle_off_closes_the_overlay(
    state: SessionModel,
    reply: Option<Seq<char>>,
    now: nat,
    later: nat,
)
    requires
        state.preview,
        state.phase == PhaseModel::Draining(DrainReason::ToggleOff),
    ensures
        ({
            let asked = state.on_drained(now);
            let replied = asked.0.on_reply(reply, later);
            let closed = replied.0.on_response(ResponseModel::Closed);
            let all = asked.1 + replied.1 + closed.1;
            &&& closed.0.phase == PhaseModel::Idle
            &&& !closed.0.overlay_open
            &&& closed.0.overlay_words == 0
            &&& closed.0.buffer == state.buffer.emptied()
            &&& all.last() == ActionModel::WriteStatus(Status::Paused)
            &&& state.overlay_open ==> session_laws::ends_with_actions(
                all,
                seq![
                    ActionModel::OverlayCommit,
                    ActionModel::AwaitOverlay,
                    ActionModel::WriteStatus(Status::Paused),
                ],
            )
        }),
{
    let asked = state.on_drained(now);
    let replied = asked.0.on_reply(reply, later);
    let closed = replied.0.on_response(ResponseModel::Closed);
    let all = asked.1 + replied.1 + closed.1;
    if state.overlay_open {
        let end = seq![
            ActionModel::OverlayCommit,
            ActionModel::AwaitOverlay,
            ActionModel::WriteStatus(Status::Paused),
        ];
        assert(all.skip(all.len() - 3) =~= end);
    } else if state.buffer.paragraph.len() >= 2 {
        assert(closed.1 =~= Seq::empty());
        assert(all =~= asked.1 + replied.1);
    } else {
        assert(all =~= asked.1);
    }
}

/// Ten seconds of silence with words in the buffer commit the overlay and pause capturing, at
/// once or after the correction of a chunk, whatever the reply is.
pub proof fn law_long_silence_commits(
    state: SessionModel,
    reply: Option<Seq<char>>,
    now: nat,
    later: nat,
)
    requires
        state.preview,
        state.phase == PhaseModel::Idle,
        state.overlay_open,
        state.buffer.paragraph.len() > 0,
        state.silence(now) >= 10_000_000_000,
    ensures
        ({
            let ticked = state.on_tick(true, now);
            let replied = ticked.0.on_reply(reply, later);
            &&& session_laws::ends_with_actions(
                ticked.1 + replied.1,
                seq![ActionModel::OverlayCommit, ActionModel::SetCapturing(false)],
            )
            &&& replied.0.phase == PhaseModel::Idle
            &&& replied.0.overlay_words == 0
            &&& replied.0.buffer == state.buffer.emptied()
        }),
{
    let ticked = state.on_tick(true, now);
    let replied = ticked.0.on_reply(reply, later);
    let all = ticked.1 + replied.1;
    if ticked.0.phase is OverlayChunk {
        let words = ticked.0.phase->OverlayChunk_words;
        if session::replaces(text::sentence(words), reply, state.profile) {
            if text::words(reply->0).len() == 0 {
                session_laws::lemma_no_words_compared(reply->0);
            }
        }
    }
    assert(all.skip(all.len() - 2) =~= seq![
        ActionModel::OverlayCommit,
        ActionModel::SetCapturing(false),
    ]);
}

/// A commit forgets what it pasted: nothing is left to commit after a silence or to correct
/// once capturing is stopped.
pub proof fn law_commit_forgets(state: SessionModel, capturing: bool, now: nat, later: nat)
    requires
        state.phase == PhaseModel::Idle,
        state.overlay_open,
    ensures
        ({
            let committed = state.on_commit().0;
            &&& committed.buffer == state.buffer.emptied()
            &&& committed.overlay_words == 0
            &&& committed.on_tick(capturing, now) == (committed, Seq::<ActionModel>::empty())
            &&& forall|i: int|
                0 <= i < committed.on_toggle_off().0.on_drained(later).1.len() ==> (
                #[trigger] committed.on_toggle_off().0.on_drained(later).1[i]) !is AskParagraph
        }),
{
}

/// To discard a session pastes nothing and forgets what was dictated.
pub proof fn law_discarding_forgets(state: SessionModel)
    requires
        state.phase == PhaseModel::Idle,
        state.overlay_open,
    ensures
        state.on_discard().0.buffer.paragraph.len() == 0,
        state.on_discard().0.buffer.chunk.len() == 0,
        forall|i: int|
            0 <= i < state.on_discard().1.len() ==> (
            #[trigger] state.on_discard().1[i]) !is OverlayCommit && state.on_discard().1[i]
                !is OverlayCheckpoint,
{
}

} // verus!
