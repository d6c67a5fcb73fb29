//! The overlays without their widgets.

use ears::gtk_overlay::{
    KeyFlow, OverlayCommand, OverlayKey, OverlayResponse, OverlayState, OverlayStatus, Placement,
    ReviewChoice, ReviewOption, WindowStep,
};
use ears::overlay_view::{ContentItem, Geometry, LabelClass, WINDOW_MARGIN};
use ears::preview_buffer::DisplayStyle;
use ears::preview_overlay;
use ears::preview_overlay::{section_color, PreviewApp};

fn option(choice: ReviewChoice, text: &str, safe: bool) -> ReviewOption {
    ReviewOption { choice, text: text.to_string(), safe }
}

fn options() -> Vec<ReviewOption> {
    vec![
        option(ReviewChoice::Raw, "raw", false),
        option(ReviewChoice::Final, "final", false),
        option(ReviewChoice::Accuracy, "accuracy", true),
        option(ReviewChoice::Cancel, "", false),
    ]
}

fn in_review(selected: usize) -> OverlayState {
    let mut overlay = OverlayState::new();
    overlay.handle_command(OverlayCommand::Review { options: options(), selected });
    overlay
}

fn word(overlay: &mut OverlayState, word: &str) {
    let steps = overlay.handle_command(OverlayCommand::Word(word.to_string()));
    assert_eq!(steps, vec![WindowStep::RefreshContent]);
}

fn leaving() -> Vec<WindowStep> {
    vec![
        WindowStep::RefreshStatus,
        WindowStep::RefreshContent,
        WindowStep::ReleaseKeyboard,
        WindowStep::SetVisible(false),
        WindowStep::Place(Placement::Compact),
    ]
}

#[test]
fn words_and_corrections_are_shown() {
    let mut overlay = OverlayState::new();
    word(&mut overlay, "helo");
    word(&mut overlay, "wrold");
    assert_eq!(overlay.footer(), "2 words");
    overlay.handle_command(OverlayCommand::ChunkCorrection {
        corrected: "hello".to_string(),
        start: 0,
        original_len: 1,
    });
    assert_eq!(
        overlay.content(),
        vec![ContentItem::Label { text: "hello wrold".to_string(), class: LabelClass::Active }]
    );
    overlay.handle_command(OverlayCommand::Correction("Hello, world.".to_string()));
    assert_eq!(overlay.buffer.active_text_display(), "Hello, world.");
}

#[test]
fn a_checkpoint_pastes_and_goes_on() {
    let mut overlay = OverlayState::new();
    assert_eq!(overlay.handle_command(OverlayCommand::Checkpoint), vec![WindowStep::RefreshContent]);
    word(&mut overlay, "one");
    assert_eq!(
        overlay.handle_command(OverlayCommand::Checkpoint),
        vec![
            WindowStep::Respond(OverlayResponse::PasteText("one".to_string())),
            WindowStep::RefreshContent,
        ]
    );
    word(&mut overlay, "two");
    assert_eq!(
        overlay.content(),
        vec![
            ContentItem::Label { text: "one".to_string(), class: LabelClass::Committed },
            ContentItem::Separator,
            ContentItem::Label { text: "two".to_string(), class: LabelClass::Active },
        ]
    );
}

#[test]
fn a_commit_pastes_everything_and_hides() {
    let mut overlay = OverlayState::new();
    word(&mut overlay, "one");
    overlay.handle_command(OverlayCommand::Checkpoint);
    word(&mut overlay, "two");
    assert_eq!(
        overlay.handle_command(OverlayCommand::Commit),
        vec![
            WindowStep::Place(Placement::Compact),
            WindowStep::Respond(OverlayResponse::PasteText("one\n\ntwo".to_string())),
            WindowStep::RefreshContent,
            WindowStep::SetVisible(false),
            WindowStep::Respond(OverlayResponse::Closed),
        ]
    );
    assert!(overlay.buffer.is_empty());
    assert_eq!(
        overlay.handle_command(OverlayCommand::Commit),
        vec![
            WindowStep::Place(Placement::Compact),
            WindowStep::RefreshContent,
            WindowStep::SetVisible(false),
            WindowStep::Respond(OverlayResponse::Closed),
        ]
    );
}

#[test]
fn closing_pastes_nothing() {
    let mut overlay = in_review(0);
    word(&mut overlay, "one");
    assert_eq!(
        overlay.handle_command(OverlayCommand::Close),
        vec![
            WindowStep::Place(Placement::Compact),
            WindowStep::RefreshContent,
            WindowStep::SetVisible(false),
            WindowStep::Respond(OverlayResponse::Closed),
        ]
    );
    assert!(overlay.buffer.is_empty());
    assert!(!overlay.review_active);
    word(&mut overlay, "two");
    assert_eq!(
        overlay.close_request(),
        vec![
            WindowStep::RefreshContent,
            WindowStep::SetVisible(false),
            WindowStep::Respond(OverlayResponse::Closed),
        ]
    );
    assert!(overlay.buffer.is_empty());
}

#[test]
fn the_window_is_shown_and_hidden() {
    let mut overlay = OverlayState::new();
    assert_eq!(
        overlay.handle_command(OverlayCommand::Show),
        vec![WindowStep::SetVisible(true), WindowStep::Present]
    );
    assert_eq!(overlay.handle_command(OverlayCommand::Hide), vec![WindowStep::SetVisible(false)]);
    assert_eq!(
        overlay.handle_command(OverlayCommand::Info("note".to_string())),
        vec![WindowStep::ShowInfo("note".to_string())]
    );
    assert_eq!(
        overlay.handle_command(OverlayCommand::Status(OverlayStatus::Correcting)),
        vec![WindowStep::RefreshStatus]
    );
    assert_eq!(overlay.status, OverlayStatus::Correcting);
}

#[test]
fn a_review_takes_the_keyboard() {
    let mut overlay = OverlayState::new();
    let steps = overlay.handle_command(OverlayCommand::Review { options: options(), selected: 9 });
    assert_eq!(
        steps,
        vec![
            WindowStep::RefreshStatus,
            WindowStep::RefreshContent,
            WindowStep::Place(Placement::Review),
            WindowStep::GrabKeyboard,
            WindowStep::SetVisible(true),
            WindowStep::Present,
        ]
    );
    assert_eq!(overlay.review_selected, 3);
    assert_eq!(overlay.status, OverlayStatus::Review);
    assert_eq!(overlay.footer(), "↑/↓ select · → paste · Esc cancel");
}

#[test]
fn a_review_shows_its_options() {
    let overlay = in_review(1);
    let choice = |label: &str, rejected: bool, text: &str, selected: bool| ContentItem::Choice {
        label: label.to_string(),
        rejected,
        text: text.to_string(),
        selected,
    };
    assert_eq!(
        overlay.content(),
        vec![
            choice("RAW", false, "raw", false),
            choice("FINAL (rejected)", true, "final", true),
            choice("ACCURACY", false, "accuracy", false),
            choice("CANCEL", false, "", false),
        ]
    );
    let mut empty = OverlayState::new();
    empty.handle_command(OverlayCommand::Review { options: vec![], selected: 0 });
    assert_eq!(
        empty.content(),
        vec![ContentItem::Label {
            text: "No review options".to_string(),
            class: LabelClass::Waiting,
        }]
    );
    for key in [OverlayKey::Up, OverlayKey::Down] {
        assert_eq!(empty.key_pressed(key, false), (vec![], KeyFlow::Stop));
    }
    assert_eq!(empty.key_pressed(OverlayKey::Return, false), (leaving(), KeyFlow::Stop));
}

#[test]
fn an_empty_overlay_waits() {
    let overlay = OverlayState::new();
    assert_eq!(
        overlay.content(),
        vec![ContentItem::Label {
            text: "Waiting for speech...".to_string(),
            class: LabelClass::Waiting,
        }]
    );
    assert_eq!(overlay.footer(), "0 words");
}

#[test]
fn up_and_down_go_round() {
    let mut overlay = in_review(0);
    let moved = (vec![WindowStep::RefreshContent], KeyFlow::Stop);
    assert_eq!(overlay.key_pressed(OverlayKey::Up, false), moved);
    assert_eq!(overlay.review_selected, 3);
    assert_eq!(overlay.key_pressed(OverlayKey::Down, true), moved);
    assert_eq!(overlay.review_selected, 0);
    overlay.key_pressed(OverlayKey::Down, false);
    assert_eq!(overlay.review_selected, 1);
    overlay.key_pressed(OverlayKey::Up, false);
    assert_eq!(overlay.review_selected, 0);
}

#[test]
fn a_choice_is_answered_at_once() {
    for key in [OverlayKey::Right, OverlayKey::Return, OverlayKey::KpEnter] {
        let mut overlay = in_review(2);
        let (steps, flow) = overlay.key_pressed(key, false);
        let mut expected = leaving();
        expected.push(WindowStep::Respond(OverlayResponse::ReviewSelection {
            choice: ReviewChoice::Accuracy,
            text: "accuracy".to_string(),
            type_output: false,
        }));
        assert_eq!(steps, expected);
        assert_eq!(flow, KeyFlow::Stop);
        assert!(!overlay.review_active);
        assert_eq!(overlay.status, OverlayStatus::Paused);
    }
}

#[test]
fn escape_and_the_cancel_option_cancel() {
    let mut expected = leaving();
    expected.push(WindowStep::Respond(OverlayResponse::Cancel));
    assert_eq!(in_review(0).key_pressed(OverlayKey::Escape, false).0, expected);
    assert_eq!(in_review(3).key_pressed(OverlayKey::Return, false).0, expected);
}

#[test]
fn with_shift_the_choice_waits_for_its_release() {
    let mut overlay = in_review(0);
    let pressed = overlay.key_pressed(OverlayKey::Return, true);
    assert_eq!(pressed, (vec![WindowStep::RefreshContent], KeyFlow::Stop));
    assert_eq!(overlay.footer(), "release shift to type");
    assert_eq!(overlay.key_pressed(OverlayKey::Escape, true), (vec![], KeyFlow::Stop));
    assert_eq!(overlay.key_released(OverlayKey::Return, true), (vec![], KeyFlow::Stop));
    assert_eq!(overlay.key_released(OverlayKey::ShiftLeft, true), (vec![], KeyFlow::Stop));
    let (steps, flow) = overlay.key_released(OverlayKey::ShiftRight, false);
    let mut expected = leaving();
    expected.push(WindowStep::Respond(OverlayResponse::ReviewSelection {
        choice: ReviewChoice::Raw,
        text: "raw".to_string(),
        type_output: true,
    }));
    assert_eq!((steps, flow), (expected, KeyFlow::Stop));
    assert!(overlay.pending_selection.is_none());
}

#[test]
fn keys_pass_outside_of_a_review() {
    let mut overlay = OverlayState::new();
    assert_eq!(overlay.key_pressed(OverlayKey::Return, false), (vec![], KeyFlow::Proceed));
    assert_eq!(overlay.key_released(OverlayKey::ShiftLeft, false), (vec![], KeyFlow::Proceed));
    let mut review = in_review(0);
    assert_eq!(review.key_pressed(OverlayKey::Other, false), (vec![], KeyFlow::Proceed));
    assert_eq!(review.key_released(OverlayKey::ShiftLeft, false), (vec![], KeyFlow::Proceed));
}

#[test]
fn captions_and_classes() {
    assert_eq!(OverlayStatus::default(), OverlayStatus::Listening);
    assert_eq!(OverlayStatus::Listening.as_str(), "listening");
    assert_eq!(OverlayStatus::Correcting.as_str(), "correcting...");
    assert_eq!(OverlayStatus::Paused.as_str(), "paused");
    assert_eq!(OverlayStatus::Review.as_str(), "review (↑/↓ select, → paste)");
    assert_eq!(OverlayStatus::Review.css_class(), "status-review");
    assert_eq!(OverlayStatus::Correcting.css_class(), "status-correcting");
    assert_eq!(LabelClass::Committed.css_class(), "committed-text");
    assert!(option(ReviewChoice::Accuracy, "", false).is_rejected());
    assert!(!option(ReviewChoice::Raw, "", false).is_rejected());
    assert!(!option(ReviewChoice::Cancel, "", false).is_rejected());
}

#[test]
fn the_window_fits_its_monitor() {
    let known = Geometry::new(400, 200, Some((1920, 1080)));
    assert_eq!((known.default_width, known.default_height), (800, 400));
    assert_eq!(known.review_size(576, 500), (800, 500));
    let unknown = Geometry::new(400, 200, None);
    assert_eq!((unknown.monitor_width, unknown.monitor_height), (864, 464));
    assert_eq!((unknown.default_width, unknown.default_height), (800, 400));
    let small = Geometry::new(400, 200, Some((600, 100)));
    assert_eq!((small.default_width, small.default_height), (560, 200));
    assert_eq!(WINDOW_MARGIN, 32);
}

#[test]
fn the_plain_window_pastes_and_closes() {
    let mut app = PreviewApp::new();
    assert_eq!(app.sections().len(), 0);
    app.handle_command(preview_overlay::OverlayCommand::Word("one".to_string()));
    assert_eq!(app.footer(), "1 words");
    app.handle_command(preview_overlay::OverlayCommand::Correction("One.".to_string()));
    assert_eq!(
        app.handle_command(preview_overlay::OverlayCommand::Checkpoint),
        Some(preview_overlay::OverlayResponse::PasteText("One.".to_string()))
    );
    assert_eq!(app.handle_command(preview_overlay::OverlayCommand::Checkpoint), None);
    assert!(!app.should_close);
    assert_eq!(
        app.handle_command(preview_overlay::OverlayCommand::Commit),
        Some(preview_overlay::OverlayResponse::PasteText("One.".to_string()))
    );
    assert!(app.should_close);
}

#[test]
fn the_plain_window_closes_without_pasting() {
    let mut app = PreviewApp::new();
    app.handle_command(preview_overlay::OverlayCommand::Word("one".to_string()));
    assert_eq!(app.handle_command(preview_overlay::OverlayCommand::Close), None);
    assert!(app.should_close);
    assert_eq!(app.footer(), "1 words");
    let mut app = PreviewApp::new();
    app.disconnected();
    assert!(app.should_close);
    let paused = preview_overlay::OverlayStatus::Paused;
    assert_eq!(app.handle_command(preview_overlay::OverlayCommand::Status(paused)), None);
    assert_eq!(app.status.as_str(), "paused");
    assert_eq!(app.status.color(), (150, 150, 150));
    assert_eq!(preview_overlay::OverlayStatus::default().color(), (100, 200, 100));
    assert_eq!(preview_overlay::OverlayStatus::Correcting.as_str(), "correcting...");
    assert_eq!(section_color(DisplayStyle::Committed), Some((128, 128, 128)));
    assert_eq!(section_color(DisplayStyle::Active), Some((240, 240, 240)));
    assert_eq!(section_color(DisplayStyle::Separator), None);
}
