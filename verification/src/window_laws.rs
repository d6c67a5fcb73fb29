//! What the overlays do for each command and key, and what they show.

use crate::gtk_overlay::{
    CommandModel, KeyFlow, OptionModel, OverlayKey, OverlayModel, OverlayStatus, Placement,
    ResponseModel, ReviewChoice, StepModel,
};
use crate::overlay_laws;
use crate::overlay_view;
use crate::overlay_view::{ContentModel, LabelClass};
use crate::paste_laws;
use crate::preview_buffer::{DisplayStyle, PreviewModel};
use crate::preview_overlay;
use crate::preview_overlay::{AppModel, OverlayCommand};
use crate::text;
use vstd::prelude::*;

verus! {

/// Every word that is sent to the overlay is the last of its active words, and a correction is
/// shown as it was sent; nothing is answered, and the content is drawn again.
pub proof fn law_words_and_corrections_are_shown(
    overlay: OverlayModel,
    word: Seq<char>,
    start: nat,
    count: nat,
)
    ensures
        ({
            let next = overlay.handled(CommandModel::Word(word));
            &&& next.0.buffer.active == overlay.buffer.active.push(word)
            &&& next.0.buffer.committed == overlay.buffer.committed
            &&& next.1 == seq![StepModel::RefreshContent]
            &&& next.0.review_active == overlay.review_active
            &&& next.0.options == overlay.options
            &&& next.0.status == overlay.status
        }),
        ({
            let next = overlay.handled(CommandModel::Correction(word));
            &&& next.0.buffer.shown() == word
            &&& next.0.buffer.active == overlay.buffer.active
            &&& next.0.buffer.committed == overlay.buffer.committed
            &&& next.1 == seq![StepModel::RefreshContent]
        }),
        ({
            let next = overlay.handled(
                CommandModel::ChunkCorrection { corrected: word, start, original_len: count },
            );
            &&& next.0.buffer == overlay.buffer.with_chunk(start, count, word)
            &&& next.1 == seq![StepModel::RefreshContent]
        }),
{
}

/// A checkpoint answers with the active text and a commit with every part; what each pastes is
/// what the buffer has for it, and nothing else is answered but that the overlay was closed.
pub proof fn law_checkpoint_and_commit_answer(overlay: OverlayModel, parts: Seq<Seq<char>>)
    requires
        paste_laws::all_parts(overlay.buffer, parts),
    ensures
        overlay_laws::responses(overlay.handled(CommandModel::Checkpoint).1)
            == if overlay.buffer.active.len() > 0 {
            seq![ResponseModel::PasteText(parts.last())]
        } else {
            Seq::empty()
        },
        overlay.handled(CommandModel::Checkpoint).0.buffer.active.len() == 0,
        overlay.handled(CommandModel::Checkpoint).0.buffer.committed == parts,
        overlay.handled(CommandModel::Commit).0.buffer.committed.len() == 0,
        overlay.handled(CommandModel::Commit).0.buffer.active.len() == 0,
        overlay_laws::responses(overlay.handled(CommandModel::Commit).1) == if parts.len() > 0 {
            seq![
                ResponseModel::PasteText(text::join(parts, seq!['\n', '\n'])),
                ResponseModel::Closed,
            ]
        } else {
            seq![ResponseModel::Closed]
        },
{
    let steps = overlay.handled(CommandModel::Checkpoint).1;
    reveal_with_fuel(overlay_laws::responses, 3);
    if overlay.buffer.active.len() > 0 {
        assert(parts.drop_last().push(parts.last()) =~= parts);
        assert(steps.drop_last().drop_last() =~= Seq::empty());
        assert(overlay_laws::responses(steps) =~= seq![ResponseModel::PasteText(parts.last())]);
    } else {
        assert(steps.drop_last() =~= Seq::empty());
    }
    assert(overlay.buffer.parts() =~= parts);
    overlay_laws::law_closing_is_answered(overlay);
}

/// The window is shown, hidden, and told of its status and of information as asked for; a
/// commit, a close and a request to close hide it.
pub proof fn law_window_follows_commands(
    overlay: OverlayModel,
    status: OverlayStatus,
    info: Seq<char>,
)
    ensures
        overlay.handled(CommandModel::Show).1.contains(StepModel::SetVisible(true)),
        overlay.handled(CommandModel::Hide).1 == seq![StepModel::SetVisible(false)],
        overlay.handled(CommandModel::Status(status)).0 == (OverlayModel { status, ..overlay }),
        overlay.handled(CommandModel::Status(status)).1 == seq![StepModel::RefreshStatus],
        overlay.handled(CommandModel::Info(info)).1 == seq![StepModel::ShowInfo(info)],
        overlay.handled(CommandModel::Info(info)).0 == overlay,
        overlay.handled(CommandModel::Commit).1.contains(StepModel::SetVisible(false)),
        overlay.handled(CommandModel::Close).1.contains(StepModel::SetVisible(false)),
        overlay.close_requested().1.contains(StepModel::SetVisible(false)),
        overlay.handled(CommandModel::Commit).1.contains(StepModel::RefreshContent),
        overlay.handled(CommandModel::Close).1.contains(StepModel::RefreshContent),
        overlay.close_requested().1.contains(StepModel::RefreshContent),
{
    assert(overlay.handled(CommandModel::Show).1[0] == StepModel::SetVisible(true));
    let committed = overlay.handled(CommandModel::Commit).1;
    assert(committed[committed.len() - 2] == StepModel::SetVisible(false));
    assert(committed[committed.len() - 3] == StepModel::RefreshContent);
    let closed = overlay.handled(CommandModel::Close).1;
    assert(closed[2] == StepModel::SetVisible(false));
    assert(closed[1] == StepModel::RefreshContent);
    let requested = overlay.close_requested().1;
    assert(requested[1] == StepModel::SetVisible(false));
    assert(requested[0] == StepModel::RefreshContent);
}

/// A review offers all its options, selects the one that is asked for or else the last, takes
/// all keys and is shown.
pub proof fn law_reviews_open(overlay: OverlayModel, options: Seq<OptionModel>, selected: nat)
    ensures
        ({
            let next = overlay.handled(CommandModel::Review { options, selected });
            &&& next.0.review_active
            &&& next.0.options == options
            &&& next.0.status == OverlayStatus::Review
            &&& next.0.buffer == overlay.buffer
            &&& selected < options.len() ==> next.0.selected == selected
            &&& selected >= options.len() && options.len() > 0 ==> next.0.selected == options.len()
                - 1
            &&& next.1.contains(StepModel::GrabKeyboard)
            &&& next.1.contains(StepModel::SetVisible(true))
            &&& next.1.contains(StepModel::Place(Placement::Review))
        }),
{
    let steps = overlay.handled(CommandModel::Review { options, selected }).1;
    assert(steps[2] == StepModel::Place(Placement::Review));
    assert(steps[3] == StepModel::GrabKeyboard);
    assert(steps[4] == StepModel::SetVisible(true));
}

/// Down selects the next option and up the one before; after the last comes the first.
pub proof fn law_keys_move_the_selection(overlay: OverlayModel, shift: bool)
    requires
        overlay.wf(),
        overlay.review_active,
        overlay.options.len() > 0,
        overlay.pending is None || !overlay.pending_type_output,
    ensures
        ({
            let count = overlay.options.len();
            let down = overlay.pressed(OverlayKey::Down, shift);
            let up = overlay.pressed(OverlayKey::Up, shift);
            &&& overlay.selected + 1 < count ==> down.0.selected == overlay.selected + 1
            &&& overlay.selected + 1 == count ==> down.0.selected == 0
            &&& overlay.selected > 0 ==> up.0.selected == overlay.selected - 1
            &&& overlay.selected == 0 ==> up.0.selected == count - 1
            &&& down.0.options == overlay.options && up.0.options == overlay.options
            &&& down.1 == seq![StepModel::RefreshContent] && up.1 == seq![StepModel::RefreshContent]
            &&& down.2 == KeyFlow::Stop && up.2 == KeyFlow::Stop
        }),
{
    let count = overlay.options.len() as int;
    crate::gtk_overlay::lemma_wrap_back(overlay.selected as int, count);
    crate::gtk_overlay::lemma_wrap_on(overlay.selected as int, count);
}

/// Right, return and enter answer with the selected option, its text as it is and to be pasted,
/// or that the review was canceled where that is the option; escape cancels. The review ends,
/// the keyboard is let go and the window hidden.
pub proof fn law_choices_are_answered(overlay: OverlayModel, key: OverlayKey)
    requires
        overlay.review_active,
        overlay.selected < overlay.options.len(),
        overlay.pending is None || !overlay.pending_type_output,
        key == OverlayKey::Right || key == OverlayKey::Return || key == OverlayKey::KpEnter || key
            == OverlayKey::Escape,
    ensures
        ({
            let next = overlay.pressed(key, false);
            let option = overlay.options[overlay.selected as int];
            &&& next.1.last() == StepModel::Respond(
                if key == OverlayKey::Escape || option.choice == ReviewChoice::Cancel {
                    ResponseModel::Cancel
                } else {
                    ResponseModel::ReviewSelection {
                        choice: option.choice,
                        text: option.text,
                        type_output: false,
                    }
                },
            )
            &&& next.1.contains(StepModel::ReleaseKeyboard)
            &&& next.1.contains(StepModel::SetVisible(false))
            &&& next.1.contains(StepModel::Place(Placement::Compact))
            &&& next.1.contains(StepModel::RefreshStatus)
            &&& next.1.contains(StepModel::RefreshContent)
            &&& !next.0.review_active
            &&& next.0.options.len() == 0
            &&& next.0.status == OverlayStatus::Paused
            &&& next.2 == KeyFlow::Stop
        }),
{
    let steps = overlay.pressed(key, false).1;
    assert(steps[0] == StepModel::RefreshStatus);
    assert(steps[1] == StepModel::RefreshContent);
    assert(steps[2] == StepModel::ReleaseKeyboard);
    assert(steps[3] == StepModel::SetVisible(false));
    assert(steps[4] == StepModel::Place(Placement::Compact));
}

/// With shift the choice is answered when either shift key goes up, and its text is to be typed.
pub proof fn law_shifted_choices_are_typed(overlay: OverlayModel, key: OverlayKey, up: OverlayKey)
    requires
        overlay.review_active,
        overlay.selected < overlay.options.len(),
        overlay.pending is None || !overlay.pending_type_output,
        key == OverlayKey::Right || key == OverlayKey::Return || key == OverlayKey::KpEnter,
        up == OverlayKey::ShiftLeft || up == OverlayKey::ShiftRight,
    ensures
        ({
            let waiting = overlay.pressed(key, true);
            let next = waiting.0.released(up, false);
            let option = overlay.options[overlay.selected as int];
            &&& overlay_laws::responses(waiting.1).len() == 0
            &&& waiting.0.review_active
            &&& waiting.0.released(up, true).1.len() == 0
            &&& next.1.last() == StepModel::Respond(
                if option.choice == ReviewChoice::Cancel {
                    ResponseModel::Cancel
                } else {
                    ResponseModel::ReviewSelection {
                        choice: option.choice,
                        text: option.text,
                        type_output: true,
                    }
                },
            )
            &&& !next.0.review_active
        }),
{
    let waiting = overlay.pressed(key, true);
    reveal_with_fuel(overlay_laws::responses, 2);
    assert(waiting.1.drop_last() =~= Seq::empty());
}

/// In a review without options up and down do nothing, and a choice ends it without an answer;
/// a key that goes up does nothing while no choice waits for shift.
pub proof fn law_reviews_without_options(overlay: OverlayModel, key: OverlayKey, shift: bool)
    requires
        overlay.review_active,
        overlay.pending is None,
    ensures
        overlay.options.len() == 0 ==> {
            &&& overlay.pressed(OverlayKey::Up, shift).0 == overlay
            &&& overlay.pressed(OverlayKey::Down, shift).0 == overlay
            &&& overlay.pressed(OverlayKey::Up, shift).1.len() == 0
            &&& overlay.pressed(OverlayKey::Down, shift).1.len() == 0
            &&& !overlay.pressed(OverlayKey::Return, false).0.review_active
            &&& overlay.pressed(OverlayKey::Return, false).1.last() == StepModel::Place(
                Placement::Compact,
            )
        },
        overlay.released(key, shift).0 == overlay,
        overlay.released(key, shift).1.len() == 0,
{
}

/// Other keys do nothing in a review.
pub proof fn law_other_keys_do_nothing(overlay: OverlayModel, key: OverlayKey, shift: bool)
    requires
        key == OverlayKey::Other || key == OverlayKey::ShiftLeft || key == OverlayKey::ShiftRight,
    ensures
        overlay.pressed(key, shift).0 == overlay,
        overlay.pressed(key, shift).1.len() == 0,
{
}

/// Outside of a review the content is every section from top to bottom, pasted ones dimmed and
/// the active one bright, with separators between them; with none it is a line that says so.
pub proof fn law_content_shows_every_section(overlay: OverlayModel, parts: Seq<Seq<char>>)
    requires
        !overlay.review_active,
        paste_laws::all_parts(overlay.buffer, parts),
    ensures
        parts.len() > 0 ==> overlay.content().len() == 2 * parts.len() - 1,
        forall|i: int|
            0 <= i < parts.len() ==> #[trigger] overlay.content()[2 * i] == (ContentModel::Label {
                text: parts[i],
                class: if i < overlay.buffer.committed.len() {
                    LabelClass::Committed
                } else {
                    LabelClass::Active
                },
            }),
        forall|i: int|
            0 <= i < parts.len() - 1 ==> #[trigger] overlay.content()[2 * i + 1]
                == ContentModel::Separator,
        parts.len() == 0 ==> overlay.content() == seq![
            ContentModel::Label { text: "Waiting for speech..."@, class: LabelClass::Waiting },
        ],
{
    let sections = overlay.buffer.display();
    paste_laws::law_sections_on_display(overlay.buffer, parts);
    assert forall|i: int| 0 <= i < parts.len() implies #[trigger] overlay.content()[2 * i] == (
    ContentModel::Label {
        text: parts[i],
        class: if i < overlay.buffer.committed.len() {
            LabelClass::Committed
        } else {
            LabelClass::Active
        },
    }) by {
        assert(sections[2 * i].0 == parts[i]);
        assert(overlay.content()[2 * i] == overlay_view::section_item(sections[2 * i]));
    }
    assert forall|i: int| 0 <= i < parts.len() - 1 implies #[trigger] overlay.content()[2 * i + 1]
        == ContentModel::Separator by {
        assert(sections[2 * i + 1].1 == DisplayStyle::Separator);
        assert(overlay.content()[2 * i + 1] == overlay_view::section_item(sections[2 * i + 1]));
    }
}

/// In a review the content is every option with its text as it is, and just the selected one is
/// marked; a correction that was not accepted is marked as rejected.
pub proof fn law_content_shows_every_option(overlay: OverlayModel, i: int)
    requires
        overlay.review_active,
        0 <= i < overlay.options.len(),
    ensures
        overlay.content().len() == overlay.options.len(),
        overlay.content()[i] is Choice,
        overlay.content()[i]->Choice_text == overlay.options[i].text,
        overlay.content()[i]->Choice_selected <==> i == overlay.selected,
        overlay.content()[i]->Choice_rejected <==> !overlay.options[i].safe && (
        overlay.options[i].choice == ReviewChoice::Final || overlay.options[i].choice
            == ReviewChoice::Accuracy),
        overlay.content()[i]->Choice_rejected ==> overlay.content()[i]->Choice_label
            == overlay.options[i].caption() + " (rejected)"@,
        !overlay.content()[i]->Choice_rejected ==> overlay.content()[i]->Choice_label
            == overlay.options[i].caption(),
{
}

/// The line at the lower right tells the number of active words outside of a review.
pub proof fn law_footer_counts_the_words(overlay: OverlayModel)
    ensures
        !overlay.review_active ==> overlay.footer() == text::decimal(overlay.buffer.active.len())
            + " words"@,
        overlay.review_active && overlay.pending is Some && overlay.pending_type_output
            ==> overlay.footer() == "release shift to type"@,
        overlay.review_active && (overlay.pending is None || !overlay.pending_type_output)
            ==> overlay.footer() == "↑/↓ select · → paste · Esc cancel"@,
{
}

/// The words for statuses and options.
pub proof fn law_captions(option: OptionModel)
    ensures
        OverlayStatus::Listening.caption() == "listening"@,
        OverlayStatus::Correcting.caption() == "correcting..."@,
        OverlayStatus::Paused.caption() == "paused"@,
        OverlayStatus::Review.caption() == "review (↑/↓ select, → paste)"@,
        OverlayStatus::Listening.class() == "status-listening"@,
        OverlayStatus::Correcting.class() == "status-correcting"@,
        OverlayStatus::Paused.class() == "status-paused"@,
        OverlayStatus::Review.class() == "status-review"@,
        LabelClass::Waiting.class() == "waiting-text"@,
        LabelClass::Committed.class() == "committed-text"@,
        LabelClass::Active.class() == "active-text"@,
        option.choice == ReviewChoice::Raw ==> option.caption() == "RAW"@,
        option.choice == ReviewChoice::Final ==> option.caption() == "FINAL"@,
        option.choice == ReviewChoice::Accuracy ==> option.caption() == "ACCURACY"@,
        option.choice == ReviewChoice::Cancel ==> option.caption() == "CANCEL"@,
{
}

/// A window has twice the given extent where that and 40 more fit on the monitor; else it leaves
/// 40 of the monitor, but is not made smaller than 200 for that.
pub proof fn law_window_is_twice_as_large(window: u32, monitor: i32)
    requires
        window < 0x8000_0000,
    ensures
        2 * window + 40 <= monitor ==> overlay_view::window_extent(window, Some(monitor)) == 2
            * window,
        2 * window + 40 > monitor && monitor >= 240 ==> overlay_view::window_extent(
            window,
            Some(monitor),
        ) == monitor - 40,
        monitor < 240 && window >= 100 ==> overlay_view::window_extent(window, Some(monitor))
            == 200,
        window < 100 ==> overlay_view::window_extent(window, Some(monitor)) == 2 * window,
        overlay_view::monitor_extent(window, Some(monitor)) == monitor,
        overlay_view::monitor_extent(window, None) == 2 * window + 64,
        window >= 88 ==> overlay_view::window_extent(window, None) == 2 * window,
{
}

/// The plain window keeps every word, shows a correction as it came, and closes on a commit, a
/// close and nothing else.
pub proof fn law_plain_window_follows_commands(
    app: AppModel,
    word: String,
    status: preview_overlay::OverlayStatus,
)
    ensures
        ({
            let next = app.handled(OverlayCommand::Word(word));
            &&& next.buffer.active == app.buffer.active.push(word@)
            &&& next.buffer.committed == app.buffer.committed
            &&& next.should_close == app.should_close
        }),
        app.handled(OverlayCommand::Correction(word)).buffer.shown() == word@,
        app.handled(OverlayCommand::Correction(word)).should_close == app.should_close,
        app.handled(OverlayCommand::Checkpoint).should_close == app.should_close,
        app.handled(OverlayCommand::Commit).should_close,
        app.handled(OverlayCommand::Close).should_close,
        app.handled(OverlayCommand::Close).buffer == app.buffer,
        app.handled(OverlayCommand::Status(status)).status == status,
        app.handled(OverlayCommand::Status(status)).buffer == app.buffer,
        app.handled(OverlayCommand::Status(status)).should_close == app.should_close,
        app.pastes(OverlayCommand::Status(status)) is None,
        app.pastes(OverlayCommand::Word(word)) is None,
        app.pastes(OverlayCommand::Correction(word)) is None,
        app.pastes(OverlayCommand::Close) is None,
{
}

/// The plain window pastes the active text on a checkpoint and every part on a commit.
pub proof fn law_plain_window_pastes(app: AppModel, parts: Seq<Seq<char>>)
    requires
        paste_laws::all_parts(app.buffer, parts),
    ensures
        app.buffer.active.len() > 0 ==> app.pastes(OverlayCommand::Checkpoint) == Some(
            parts.last(),
        ),
        app.buffer.active.len() == 0 ==> app.pastes(OverlayCommand::Checkpoint) is None,
        parts.len() > 0 ==> app.pastes(OverlayCommand::Commit) == Some(
            text::join(parts, seq!['\n', '\n']),
        ),
        parts.len() == 0 ==> app.pastes(OverlayCommand::Commit) is None,
        app.handled(OverlayCommand::Commit).buffer.committed.len() == 0,
        app.handled(OverlayCommand::Commit).buffer.active.len() == 0,
        app.handled(OverlayCommand::Checkpoint).buffer.committed == parts,
{
    if app.buffer.active.len() > 0 {
        assert(parts.drop_last().push(parts.last()) =~= parts);
    }
    assert(app.buffer.parts() =~= parts);
}

/// The overlay opens empty, listening and without a review.
pub proof fn law_overlay_opens_empty()
    ensures
        OverlayModel::start().buffer == PreviewModel::empty(),
        OverlayModel::start().buffer.active.len() == 0,
        OverlayModel::start().buffer.committed.len() == 0,
        OverlayModel::start().buffer.corrected is None,
        !OverlayModel::start().buffer.pending,
        OverlayModel::start().status == OverlayStatus::Listening,
        !OverlayModel::start().review_active,
{
}

} // verus!
