//! What holds of the overlays across commands and keys.

use crate::gtk_overlay;
use crate::gtk_overlay::{
    CommandModel, KeyFlow, OptionModel, OverlayKey, OverlayModel, OverlayStatus, Placement,
    ResponseModel, ReviewChoice, StepModel,
};
use crate::preview_buffer::PreviewModel;
use crate::preview_overlay;
use vstd::prelude::*;

verus! {

/// Whether a step asks to paste a text.
pub open spec fn pastes(step: StepModel) -> bool {
    step matches StepModel::Respond(ResponseModel::PasteText(_))
}

/// Only a checkpoint and a commit paste, and they paste what the buffer has for them.
pub proof fn law_only_checkpoint_and_commit_paste(overlay: OverlayModel, command: CommandModel)
    ensures
        forall|i: int|
            0 <= i < overlay.handled(command).1.len() && pastes(
                #[trigger] overlay.handled(command).1[i],
            ) ==> match command {
                CommandModel::Checkpoint => overlay.buffer.checkpoint_text() matches Some(pasted)
                    && overlay.handled(command).1[i] == StepModel::Respond(
                    ResponseModel::PasteText(pasted),
                ),
                CommandModel::Commit => overlay.buffer.commit_text() matches Some(pasted)
                    && overlay.handled(command).1[i] == StepModel::Respond(
                    ResponseModel::PasteText(pasted),
                ),
                _ => false,
            },
{
}

/// The answers among the steps for the window, in order.
pub open spec fn responses(steps: Seq<StepModel>) -> Seq<ResponseModel>
    decreases steps.len(),
{
    if steps.len() == 0 {
        Seq::empty()
    } else {
        match steps.last() {
            StepModel::Respond(response) => responses(steps.drop_last()).push(response),
            _ => responses(steps.drop_last()),
        }
    }
}

/// A commit answers with the text to paste, if there is any, and then that the overlay was
/// closed; a close and a request to close answer only the latter.
pub proof fn law_closing_is_answered(overlay: OverlayModel)
    ensures
        responses(overlay.handled(CommandModel::Commit).1) == match overlay.buffer.commit_text() {
            Some(pasted) => seq![ResponseModel::PasteText(pasted), ResponseModel::Closed],
            None => seq![ResponseModel::Closed],
        },
        responses(overlay.handled(CommandModel::Close).1) == seq![ResponseModel::Closed],
        responses(overlay.close_requested().1) == seq![ResponseModel::Closed],
{
    reveal_with_fuel(responses, 6);
    let committed = overlay.handled(CommandModel::Commit).1;
    let closed = overlay.handled(CommandModel::Close).1;
    let place = seq![StepModel::Place(Placement::Compact)];
    assert(responses(place) =~= Seq::empty()) by {
        assert(place.drop_last() =~= Seq::empty());
    }
    let shown = committed.drop_last().drop_last().drop_last();
    match overlay.buffer.commit_text() {
        Some(pasted) => {
            let paste = StepModel::Respond(ResponseModel::PasteText(pasted));
            assert(shown =~= place.push(paste));
            assert(shown.drop_last() =~= place);
            assert(responses(shown) =~= seq![ResponseModel::PasteText(pasted)]);
            assert(responses(committed) =~= seq![
                ResponseModel::PasteText(pasted),
                ResponseModel::Closed,
            ]);
        },
        None => {
            assert(shown =~= place);
            assert(responses(committed) =~= seq![ResponseModel::Closed]);
        },
    }
    assert(closed.drop_last().drop_last().drop_last() =~= place);
    assert(responses(closed) =~= seq![ResponseModel::Closed]);
    let requested = overlay.close_requested().1;
    assert(requested.drop_last().drop_last().drop_last() =~= Seq::empty());
    assert(responses(requested) =~= seq![ResponseModel::Closed]);
}

/// Keys never paste the buffer and never change it.
pub proof fn law_keys_leave_the_buffer(overlay: OverlayModel, key: OverlayKey, shift: bool)
    ensures
        overlay.pressed(key, shift).0.buffer == overlay.buffer,
        overlay.released(key, shift).0.buffer == overlay.buffer,
        forall|i: int|
            0 <= i < overlay.pressed(key, shift).1.len() ==> !pastes(
                #[trigger] overlay.pressed(key, shift).1[i],
            ),
        forall|i: int|
            0 <= i < overlay.released(key, shift).1.len() ==> !pastes(
                #[trigger] overlay.released(key, shift).1[i],
            ),
{
}

/// Outside of a review no key does anything, and all go on to other handlers.
pub proof fn law_keys_pass_outside_review(overlay: OverlayModel, key: OverlayKey, shift: bool)
    requires
        !overlay.review_active,
    ensures
        overlay.pressed(key, shift) == (overlay, Seq::<StepModel>::empty(), KeyFlow::Proceed),
        overlay.released(key, shift) == (overlay, Seq::<StepModel>::empty(), KeyFlow::Proceed),
{
}

/// In a review, up undoes down and down undoes up.
pub proof fn law_up_and_down_undo_each_other(overlay: OverlayModel, shift: bool)
    requires
        overlay.wf(),
        overlay.review_active,
        overlay.pending is None || !overlay.pending_type_output,
    ensures
        overlay.pressed(OverlayKey::Down, shift).0.pressed(OverlayKey::Up, shift).0 == overlay,
        overlay.pressed(OverlayKey::Up, shift).0.pressed(OverlayKey::Down, shift).0 == overlay,
{
    let count = overlay.options.len() as int;
    if count > 0 {
        let selected = overlay.selected as int;
        gtk_overlay::lemma_wrap_back(selected, count);
        gtk_overlay::lemma_wrap_on(selected, count);
        let down = overlay.pressed(OverlayKey::Down, shift).0;
        let up = overlay.pressed(OverlayKey::Up, shift).0;
        gtk_overlay::lemma_wrap_back(down.selected as int, count);
        gtk_overlay::lemma_wrap_on(up.selected as int, count);
    }
}

/// Escape cancels a review: it closes, and the one answer is that it was canceled.
pub proof fn law_escape_cancels(overlay: OverlayModel, shift: bool)
    requires
        overlay.review_active,
        overlay.pending is None || !overlay.pending_type_output,
    ensures
        !overlay.pressed(OverlayKey::Escape, shift).0.review_active,
        overlay.pressed(OverlayKey::Escape, shift).0.status == OverlayStatus::Paused,
        forall|i: int|
            0 <= i < overlay.pressed(OverlayKey::Escape, shift).1.len() ==> (
            #[trigger] overlay.pressed(OverlayKey::Escape, shift).1[i] matches StepModel::Respond(
                response,
            ) ==> response == ResponseModel::Cancel),
{
}

/// An option chosen with shift held is answered once shift is released, and the text is to
/// be typed; no other key gets through before.
pub proof fn law_shift_defers_the_choice(
    overlay: OverlayModel,
    option: OptionModel,
    other: OverlayKey,
    shift: bool,
)
    requires
        overlay.review_active,
        overlay.pending is None || !overlay.pending_type_output,
        overlay.selection() == Some(option),
    ensures
        ({
            let waiting = overlay.pressed(OverlayKey::Return, true).0;
            &&& waiting.pressed(other, shift) == (
                waiting,
                Seq::<StepModel>::empty(),
                KeyFlow::Stop,
            )
            &&& waiting.released(OverlayKey::ShiftLeft, false).1
                == gtk_overlay::leave_review_steps().push(StepModel::Respond(option.answer(true)))
            &&& !waiting.released(OverlayKey::ShiftLeft, false).0.review_active
            &&& waiting.released(OverlayKey::ShiftLeft, false).0.pending is None
        }),
{
    let waiting = overlay.pressed(OverlayKey::Return, true).0;
    assert(waiting.released(OverlayKey::ShiftLeft, false).1
        =~= gtk_overlay::leave_review_steps().push(StepModel::Respond(option.answer(true))));
}

/// The option that cancels is never answered with a text.
pub proof fn law_cancel_has_no_text(option: OptionModel, type_output: bool)
    requires
        option.choice == ReviewChoice::Cancel,
    ensures
        option.answer(type_output) == ResponseModel::Cancel,
{
}

/// A review that was left by a key asks for no further choice, whatever command opens the
/// next one.
pub proof fn law_reviews_start_without_choice(
    overlay: OverlayModel,
    options: Seq<OptionModel>,
    selected: nat,
)
    ensures
        overlay.review_done().handled(CommandModel::Review { options, selected }).0.pending
            is None,
        overlay.handled(CommandModel::Review { options, selected }).0.wf(),
        selected < options.len() ==> overlay.handled(
            CommandModel::Review { options, selected },
        ).0.selection() == Some(options[selected as int]),
{
}

/// After a commit, a close or a request to close, the overlay holds no text and offers
/// nothing.
pub proof fn law_closing_forgets(overlay: OverlayModel)
    ensures
        overlay.handled(CommandModel::Commit).0.buffer.parts().len() == 0,
        !overlay.handled(CommandModel::Commit).0.review_active,
        overlay.handled(CommandModel::Close).0.buffer == PreviewModel::empty(),
        !overlay.handled(CommandModel::Close).0.review_active,
        overlay.close_requested().0.buffer == PreviewModel::empty(),
        !overlay.close_requested().0.review_active,
{
}

/// Showing and hiding change nothing but the window.
pub proof fn law_visibility_keeps_state(overlay: OverlayModel)
    ensures
        overlay.handled(CommandModel::Show).0 == overlay,
        overlay.handled(CommandModel::Hide).0 == overlay,
{
}

/// The plain preview window pastes what the layer-shell overlay pastes, for the commands
/// that both know.
pub proof fn law_windows_paste_alike(
    overlay: OverlayModel,
    app: preview_overlay::AppModel,
)
    requires
        overlay.buffer == app.buffer,
    ensures
        overlay.handled(CommandModel::Checkpoint).0.buffer == app.handled(
            preview_overlay::OverlayCommand::Checkpoint,
        ).buffer,
        overlay.handled(CommandModel::Commit).0.buffer == app.handled(
            preview_overlay::OverlayCommand::Commit,
        ).buffer,
        overlay.handled(CommandModel::Checkpoint).1 == gtk_overlay::paste_step(
            app.pastes(preview_overlay::OverlayCommand::Checkpoint),
        ).push(StepModel::RefreshContent),
        overlay.handled(CommandModel::Commit).1 == seq![StepModel::Place(Placement::Compact)]
            + gtk_overlay::paste_step(app.pastes(preview_overlay::OverlayCommand::Commit)) + seq![
            StepModel::RefreshContent,
            StepModel::SetVisible(false),
            StepModel::Respond(ResponseModel::Closed),
        ],
{
}

} // verus!
