//! A dictation session.

use ears::correction_buffer::CorrectionProfile;
use ears::dictation::Status;
use ears::gtk_overlay::{
    OverlayCommand, OverlayResponse, OverlayState, OverlayStatus, WindowStep,
};
use ears::session::{Action, DrainPlan, DrainReason, Incoming, Session};
use ears::virtual_keyboard::KeyboardKind;

const SECOND: u64 = 1_000_000_000;

fn session(preview: bool, profile: CorrectionProfile) -> Session {
    Session::new(preview, profile, KeyboardKind::Kernel, 500, 0)
}

fn typing() -> Session {
    session(false, CorrectionProfile::Technical)
}

fn preview() -> Session {
    let mut session = session(true, CorrectionProfile::Technical);
    assert_eq!(session.respawn(), vec![Action::OverlaySpawn]);
    session.spawned(true);
    session
}

fn text(source: &str) -> String {
    source.to_string()
}

fn say(session: &mut Session, words: &[&str], now: u64) {
    for word in words {
        let actions = session.word(word, true, now);
        if session.preview {
            assert_eq!(actions, vec![Action::OverlayWord(text(word))]);
        } else {
            assert_eq!(actions, vec![Action::TypeWord(text(word))]);
            assert_eq!(session.typed(true, now), vec![]);
        }
    }
}

#[test]
fn words_are_typed_while_capturing() {
    let mut session = typing();
    assert_eq!(session.word("hi", false, 1), vec![]);
    assert_eq!(session.last_word, 0);
    assert_eq!(session.word("...", true, 2), vec![]);
    assert_eq!(session.last_word, 2);
    say(&mut session, &["hi"], 3);
    assert_eq!(session.buffer.paragraph_len(), 1);
}

#[test]
fn a_word_that_was_not_typed_is_not_remembered() {
    let mut session = typing();
    session.word("hi", true, 1);
    assert_eq!(session.typed(false, 2), vec![]);
    assert_eq!(session.buffer.paragraph_len(), 0);
}

#[test]
fn a_complete_chunk_is_corrected_and_retyped() {
    let mut session = typing();
    say(&mut session, &["run", "the"], 1);
    assert_eq!(session.word("bath.", true, 2), vec![Action::TypeWord(text("bath."))]);
    assert_eq!(session.typed(true, 3), vec![Action::AskSentence(text("run the bath."))]);
    assert_eq!(session.reply(Some(text("Run the bath!")), 4), vec![Action::Retype {
        backspaces: 14,
        text: text("Run the bath!"),
    }]);
    assert_eq!(session.typed(true, 5), vec![]);
    assert_eq!(session.buffer.take_paragraph().0, "Run the bath!");
    assert_eq!(session.last_word, 2);
}

#[test]
fn a_single_word_is_no_chunk() {
    let mut session = typing();
    say(&mut session, &["Stop."], 1);
    assert_eq!(session.tick(true, 2 * SECOND), vec![]);
}

#[test]
fn replies_that_differ_too_much_are_dropped() {
    for reply in [None, Some("run the bath."), Some("something else entirely"), Some("")] {
        let mut session = typing();
        say(&mut session, &["run", "the"], 1);
        session.word("bath.", true, 2);
        session.typed(true, 3);
        assert_eq!(session.reply(reply.map(text), 4), vec![]);
        assert_eq!(session.buffer.take_paragraph().0, "run the bath.");
        say(&mut session, &["next"], 5);
    }
}

#[test]
fn a_failed_retype_is_not_applied() {
    let mut session = typing();
    say(&mut session, &["run", "the"], 1);
    session.word("bath.", true, 2);
    session.typed(true, 3);
    session.reply(Some(text("Run the bath!")), 4);
    assert_eq!(session.typed(false, 5), vec![]);
    assert_eq!(session.buffer.take_paragraph().0, "run the bath.");
}

#[test]
fn a_pause_corrects_the_chunk() {
    let mut session = typing();
    say(&mut session, &["run", "bath"], 1);
    assert_eq!(session.tick(false, 3 * SECOND), vec![]);
    assert_eq!(session.tick(true, SECOND), vec![]);
    assert_eq!(session.tick(true, 1_500_000_001), vec![
        Action::WriteStatus(Status::Processing),
        Action::AskSentence(text("run bath")),
    ]);
    assert_eq!(session.tick(true, 3 * SECOND), vec![]);
    let retype = session.reply(Some(text("Run, bath")), 2 * SECOND);
    assert_eq!(retype, vec![Action::Retype { backspaces: 9, text: text("Run, bath") }]);
    assert_eq!(session.typed(true, 3 * SECOND), vec![Action::WriteStatus(Status::Listening)]);
    assert_eq!(session.last_word, 3 * SECOND);
}

#[test]
fn a_pause_without_a_usable_reply_listens_again() {
    let mut session = typing();
    say(&mut session, &["run", "bath"], 1);
    session.tick(true, 2 * SECOND);
    assert_eq!(session.reply(None, 3 * SECOND), vec![Action::WriteStatus(Status::Listening)]);
    assert_eq!(session.last_word, 3 * SECOND);
}

#[test]
fn a_failed_retype_after_a_pause_is_fatal() {
    let mut session = typing();
    say(&mut session, &["run", "bath"], 1);
    session.tick(true, 2 * SECOND);
    session.reply(Some(text("Run bath.")), 3 * SECOND);
    assert_eq!(session.typed(false, 3 * SECOND), vec![Action::Fail]);
}

#[test]
fn silence_corrects_the_paragraph_and_listening_goes_on() {
    let mut session = typing();
    say(&mut session, &["run", "the"], 1);
    let plan = DrainPlan { reason: DrainReason::Silence, settle: 0, poll: 120, deadline: 800 };
    assert_eq!(session.tick(true, 5 * SECOND + 1), vec![
        Action::NotifyProcessing,
        Action::SetCapturing(false),
        Action::Drain(plan),
    ]);
    assert_eq!(session.word("bath", false, 6 * SECOND), vec![Action::TypeAnyway(text("bath"))]);
    assert_eq!(session.word("?", false, 6 * SECOND), vec![]);
    assert_eq!(session.drained(6 * SECOND), vec![
        Action::WriteStatus(Status::Processing),
        Action::AskParagraph(text("run the bath")),
    ]);
    assert_eq!(session.reply(Some(text("Run the bath.")), 7 * SECOND), vec![Action::Retype {
        backspaces: 13,
        text: text("Run the bath."),
    }]);
    assert_eq!(session.typed(false, 8 * SECOND), vec![
        Action::WriteStatus(Status::Listening),
        Action::SetCapturing(true),
    ]);
    assert_eq!(session.buffer.paragraph_len(), 0);
    assert_eq!(session.last_word, 8 * SECOND);
}

#[test]
fn stopping_corrects_the_paragraph_and_pauses() {
    let mut session = session(false, CorrectionProfile::Journal);
    say(&mut session, &["dear"], 1);
    let plan = DrainPlan { reason: DrainReason::ToggleOff, settle: 700, poll: 120, deadline: 1100 };
    assert_eq!(session.toggle_off(), vec![Action::Drain(plan)]);
    assert_eq!(session.word("diary", false, 9), vec![Action::TypeAnyway(text("diary"))]);
    assert_eq!(session.last_word, 1);
    assert_eq!(session.drained(10), vec![
        Action::WriteStatus(Status::Processing),
        Action::AskParagraph(text("dear diary")),
    ]);
    assert_eq!(session.reply(None, 11), vec![Action::WriteStatus(Status::Paused)]);
    assert_eq!(session.toggle_off(), vec![Action::Drain(plan)]);
    assert_eq!(session.drained(12), vec![]);
}

#[test]
fn words_go_to_the_open_overlay() {
    let mut session = session(true, CorrectionProfile::Technical);
    assert_eq!(session.word("lost", true, 4), vec![]);
    assert_eq!(session.last_word, 4);
    assert_eq!(session.buffer.paragraph_len(), 0);
    let mut session = preview();
    assert_eq!(session.word("...", true, 4), vec![]);
    assert_eq!(session.last_word, 0);
    say(&mut session, &["hi"], 5);
    assert_eq!(session.overlay_words, 1);
}

#[test]
fn a_chunk_is_corrected_in_the_overlay_while_words_come_in() {
    let mut session = preview();
    say(&mut session, &["hello"], 1);
    session.buffer.take_chunk();
    say(&mut session, &["run", "bath"], 1);
    assert_eq!(session.tick(true, 2 * SECOND), vec![
        Action::OverlayStatus(OverlayStatus::Correcting),
        Action::WriteStatus(Status::Processing),
        Action::AskSentence(text("run bath")),
    ]);
    assert_eq!(session.word("now", false, 3 * SECOND), vec![Action::OverlayWord(text("now"))]);
    assert_eq!(session.overlay_words, 4);
    assert_eq!(session.reply(Some(text("Run bath.")), 4 * SECOND), vec![
        Action::OverlayChunk { corrected: text("Run bath."), start: 1, original_len: 2 },
        Action::OverlayStatus(OverlayStatus::Listening),
        Action::WriteStatus(Status::Listening),
    ]);
    assert_eq!(session.last_word, 4 * SECOND);
}

#[test]
fn long_silence_commits_the_overlay() {
    let mut session = session(true, CorrectionProfile::Journal);
    session.respawn();
    session.spawned(true);
    assert_eq!(session.tick(true, 20 * SECOND), vec![]);
    say(&mut session, &["dear", "diary"], SECOND);
    assert_eq!(session.tick(true, 11 * SECOND - 1), vec![]);
    assert_eq!(session.tick(true, 11 * SECOND), vec![
        Action::OverlayCommit,
        Action::SetCapturing(false),
    ]);
    assert_eq!(session.overlay_words, 0);
    assert_eq!(session.buffer.paragraph_len(), 0);
    assert_eq!(session.tick(true, 30 * SECOND), vec![]);
}

#[test]
fn a_long_pause_corrects_and_then_commits() {
    let mut session = preview();
    say(&mut session, &["run", "bath"], 0);
    session.tick(true, 10 * SECOND);
    assert_eq!(session.reply(None, 12 * SECOND), vec![
        Action::OverlayStatus(OverlayStatus::Listening),
        Action::WriteStatus(Status::Listening),
        Action::OverlayCommit,
        Action::SetCapturing(false),
    ]);
}

#[test]
fn a_checkpoint_waits_for_words_on_their_way() {
    let mut session = preview();
    say(&mut session, &["one"], 1);
    let plan = DrainPlan { reason: DrainReason::Checkpoint, settle: 100, poll: 100, deadline: 0 };
    assert_eq!(session.checkpoint(), vec![Action::Drain(plan)]);
    assert_eq!(session.word("two", false, 2), vec![Action::OverlayWord(text("two"))]);
    assert_eq!(session.overlay_words, 2);
    assert_eq!(session.drained(3), vec![Action::OverlayCheckpoint]);
    assert_eq!(session.overlay_words, 0);
    assert_eq!(session.buffer.paragraph_len(), 0);
    assert_eq!(typing().checkpoint(), vec![]);
}

#[test]
fn a_commit_pauses() {
    let mut session = preview();
    say(&mut session, &["one"], 1);
    assert_eq!(session.commit(), vec![Action::OverlayCommit, Action::SetCapturing(false)]);
    assert_eq!(session.overlay_words, 0);
    assert_eq!((session.buffer.paragraph_len(), session.buffer.chunk_len()), (0, 0));
    assert_eq!(session.tick(true, 20 * SECOND), vec![]);
    assert_eq!(typing().commit(), vec![]);
}

#[test]
fn discarding_forgets_everything() {
    let mut session = preview();
    say(&mut session, &["one", "two"], 1);
    assert_eq!(session.discard(), vec![
        Action::OverlayClose,
        Action::SetCapturing(false),
        Action::WriteStatus(Status::Paused),
    ]);
    assert_eq!((session.buffer.paragraph_len(), session.buffer.chunk_len()), (0, 0));
    assert_eq!(session.overlay_words, 0);
    assert_eq!(typing().discard(), vec![]);
}

#[test]
fn stopping_commits_and_closes_the_overlay() {
    let mut session = preview();
    say(&mut session, &["run", "bath"], 1);
    session.toggle_off();
    assert_eq!(session.word("now", false, 2), vec![Action::OverlayWord(text("now"))]);
    assert_eq!(session.drained(3), vec![
        Action::OverlayStatus(OverlayStatus::Correcting),
        Action::WriteStatus(Status::Processing),
        Action::AskParagraph(text("run bath now")),
    ]);
    assert_eq!(session.reply(Some(text("Run bath now.")), 4), vec![
        Action::OverlayCorrection(text("Run bath now.")),
        Action::OverlayCommit,
        Action::AwaitOverlay,
    ]);
    let pasted = session.overlay_response(OverlayResponse::PasteText(text("Run bath now.")));
    assert_eq!(pasted, vec![Action::Paste(text("Run bath now."))]);
    assert_eq!(session.overlay_response(OverlayResponse::Closed), vec![Action::WriteStatus(
        Status::Paused
    )]);
    assert!(!session.overlay_open);
    assert_eq!(session.overlay_words, 0);
    assert_eq!(session.respawn(), vec![Action::OverlaySpawn]);
}

#[test]
fn stopping_without_an_overlay_pauses() {
    let mut session = session(true, CorrectionProfile::Journal);
    session.toggle_off();
    assert_eq!(session.word("late", false, 1), vec![]);
    assert_eq!(session.buffer.paragraph_len(), 1);
    assert_eq!(session.drained(2), vec![Action::WriteStatus(Status::Paused)]);
    assert_eq!(session.buffer.paragraph_len(), 0);
}

#[test]
fn the_overlay_answers() {
    let mut session = preview();
    assert_eq!(session.respawn(), vec![]);
    assert_eq!(session.overlay_response(OverlayResponse::Cancel), vec![]);
    assert_eq!(session.stop(), vec![Action::OverlayClose]);
    assert_eq!(session.overlay_response(OverlayResponse::Closed), vec![]);
    assert!(!session.overlay_open);
    assert_eq!(session.stop(), vec![]);
    session.respawn();
    session.spawned(false);
    assert!(!session.overlay_open);
    assert_eq!(typing().respawn(), vec![]);
}

#[test]
fn how_long_words_are_waited_for() {
    let checkpoint = DrainPlan::new(DrainReason::Checkpoint, 500);
    assert!(!checkpoint.ends(Incoming::Text, 9_999));
    assert!(checkpoint.ends(Incoming::TimedOut, 0));
    assert!(checkpoint.ends(Incoming::Close, 0));
    let off = DrainPlan::new(DrainReason::ToggleOff, 50);
    assert_eq!((off.settle, off.deadline), (300, 650));
    assert!(!off.ends(Incoming::Ended, 649));
    assert!(off.ends(Incoming::Ended, 650));
    assert!(!off.ends(Incoming::Text, 650));
    let most = DrainPlan::new(DrainReason::ToggleOff, u64::MAX);
    assert_eq!((most.settle, most.deadline), (u64::MAX, u64::MAX));
    let silence = DrainPlan::new(DrainReason::Silence, 500);
    assert!(silence.ends(Incoming::Failed, 0));
    assert!(silence.ends(Incoming::Ended, 0));
    assert!(!silence.ends(Incoming::Other, 799));
    assert!(silence.ends(Incoming::TimedOut, 800));
}

fn on_screen(screen: &mut String, actions: &[Action]) {
    for action in actions {
        match action {
            Action::TypeWord(word) | Action::TypeAnyway(word) => {
                screen.push_str(word);
                screen.push(' ');
            }
            Action::Retype { backspaces, text } => {
                for _ in 0..*backspaces {
                    screen.pop();
                }
                screen.push_str(text);
                screen.push(' ');
            }
            _ => {}
        }
    }
}

#[test]
fn the_screen_mirrors_the_paragraph() {
    let mut session = typing();
    let mut screen = text("before ");
    for word in ["we", "can", "go.", "run", "the", "bath."] {
        on_screen(&mut screen, &session.word(word, true, 1));
        let asked = session.typed(true, 1);
        on_screen(&mut screen, &asked);
        if word == "bath." {
            on_screen(&mut screen, &session.reply(Some(text("Run the bath!")), 1));
            on_screen(&mut screen, &session.typed(true, 1));
        } else if !asked.is_empty() {
            on_screen(&mut screen, &session.reply(Some(text("We can go.")), 1));
            on_screen(&mut screen, &session.typed(true, 1));
        }
    }
    assert_eq!(screen, "before We can go. Run the bath! ");
    session.toggle_off();
    on_screen(&mut screen, &session.drained(2));
    on_screen(&mut screen, &session.reply(Some(text("We can go; run the bath!")), 3));
    assert_eq!(screen, "before We can go; run the bath! ");
}

#[test]
fn six_words_are_a_chunk() {
    let mut session = typing();
    say(&mut session, &["one", "two", "three", "four", "five"], 1);
    session.word("six", true, 2);
    let asked = vec![Action::AskSentence(text("one two three four five six"))];
    assert_eq!(session.typed(true, 3), asked);
    assert_eq!(session.reply(None, 4), vec![]);
    say(&mut session, &["seven"], 5);
    session.word("eight,", true, 6);
    assert_eq!(session.typed(true, 7), vec![Action::AskSentence(text("seven eight,"))]);
}

#[test]
fn backspaces_are_characters_that_arrived() {
    for (keyboard, backspaces) in [(KeyboardKind::Library, 11), (KeyboardKind::Kernel, 10)] {
        let mut session = Session::new(false, CorrectionProfile::Technical, keyboard, 500, 0);
        say(&mut session, &["the"], 1);
        session.word("naïve.", true, 2);
        session.typed(true, 3);
        let retype = vec![Action::Retype { backspaces, text: text("The naïve!") }];
        assert_eq!(session.reply(Some(text("The naïve!")), 4), retype);
        session.typed(true, 5);
        session.toggle_off();
        session.drained(6);
        let retype = vec![Action::Retype { backspaces, text: text("The naïve.") }];
        assert_eq!(session.reply(Some(text("The naïve.")), 7), retype);
    }
}

#[test]
fn a_shorter_correction_is_counted() {
    let mut session = preview();
    say(&mut session, &["uh", "fix", "bug"], 1);
    session.tick(true, 2 * SECOND);
    session.reply(Some(text("fix bug")), 3 * SECOND);
    assert_eq!(session.overlay_words, 2);
    assert_eq!(session.buffer.paragraph_len(), 2);
    say(&mut session, &["run", "bath"], 3 * SECOND);
    session.tick(true, 5 * SECOND);
    assert_eq!(session.reply(Some(text("Run bath.")), 6 * SECOND)[0], Action::OverlayChunk {
        corrected: text("Run bath."),
        start: 2,
        original_len: 2,
    });
}

#[test]
fn a_late_correction_leaves_newer_words_in_the_paragraph() {
    let mut session = preview();
    say(&mut session, &["run", "bath"], 1);
    session.tick(true, 2 * SECOND);
    session.word("now", false, 3 * SECOND);
    session.reply(Some(text("Run bath.")), 4 * SECOND);
    assert_eq!(session.buffer.take_paragraph().0, "Run bath. now");
}

fn answers(overlay: &mut OverlayState, command: OverlayCommand) -> Vec<OverlayResponse> {
    let mut given = Vec::new();
    for step in overlay.handle_command(command) {
        if let WindowStep::Respond(response) = step {
            given.push(response);
        }
    }
    given
}

#[test]
fn the_answers_to_a_commit_close_the_overlay() {
    for words in [vec![], vec!["one"], vec!["one", "two"]] {
        let mut session = preview();
        let mut overlay = OverlayState::new();
        say(&mut session, &words, 1);
        for word in &words {
            overlay.handle_command(OverlayCommand::Word(text(word)));
        }
        session.toggle_off();
        session.drained(2);
        session.reply(None, 3);
        assert_eq!((session.buffer.paragraph_len(), session.buffer.chunk_len()), (0, 0));
        let mut actions = Vec::new();
        for response in answers(&mut overlay, OverlayCommand::Commit) {
            actions.extend(session.overlay_response(response));
        }
        let mut expected = Vec::new();
        if !words.is_empty() {
            expected.push(Action::Paste(words.join(" ")));
        }
        expected.push(Action::WriteStatus(Status::Paused));
        assert_eq!(actions, expected);
        assert!(!session.overlay_open);
        assert_eq!(session.respawn(), vec![Action::OverlaySpawn]);
    }
}

#[test]
fn a_discarded_overlay_closes() {
    let mut session = preview();
    let mut overlay = OverlayState::new();
    say(&mut session, &["one"], 1);
    overlay.handle_command(OverlayCommand::Word(text("one")));
    session.discard();
    for response in answers(&mut overlay, OverlayCommand::Close) {
        assert_eq!(session.overlay_response(response), vec![]);
    }
    assert!(!session.overlay_open);
}

#[test]
fn session_and_overlay_stay_in_step() {
    let mut session = preview();
    let mut overlay = OverlayState::new();
    let mut run = |session: &mut Session, actions: Vec<Action>| {
        for action in actions {
            match action {
                Action::OverlayWord(word) => {
                    overlay.handle_command(OverlayCommand::Word(word));
                }
                Action::OverlayChunk { corrected, start, original_len } => {
                    overlay.handle_command(OverlayCommand::ChunkCorrection {
                        corrected,
                        start,
                        original_len,
                    });
                }
                Action::OverlayCheckpoint => {
                    overlay.handle_command(OverlayCommand::Checkpoint);
                }
                _ => {}
            }
        }
        assert_eq!(session.overlay_words, overlay.buffer.active_word_count());
        overlay.buffer.active_text()
    };
    for word in ["um", "run", "bath"] {
        let actions = session.word(word, true, 1);
        run(&mut session, actions);
    }
    let actions = session.tick(true, 2 * SECOND);
    run(&mut session, actions);
    let actions = session.word("now", true, 3 * SECOND);
    run(&mut session, actions);
    let actions = session.reply(Some(text("Run bath.")), 4 * SECOND);
    assert_eq!(run(&mut session, actions), "Run bath. now");
    let actions = session.word("go", true, 5 * SECOND);
    run(&mut session, actions);
    let actions = session.tick(true, 7 * SECOND);
    run(&mut session, actions);
    let actions = session.reply(Some(text("Now, go!")), 8 * SECOND);
    assert_eq!(run(&mut session, actions), "Run bath. Now, go!");
    session.checkpoint();
    let actions = session.drained(9 * SECOND);
    assert_eq!(run(&mut session, actions), "");
}

#[test]
fn a_correction_with_wide_spaces_replaces_its_chunk_only() {
    let mut session = typing();
    let mut screen = text("before ");
    for word in ["run", "the", "bath."] {
        on_screen(&mut screen, &session.word(word, true, 1));
        session.typed(true, 1);
    }
    on_screen(&mut screen, &session.reply(Some(text("Run  the bath!")), 1));
    session.typed(true, 1);
    assert_eq!(screen, "before Run  the bath! ");
    assert_eq!(session.buffer.take_paragraph().0, "Run the bath!");
}

#[test]
fn an_overlay_that_was_closed_takes_its_words_along() {
    let mut session = preview();
    let mut overlay = OverlayState::new();
    say(&mut session, &["run", "the", "bath"], 1);
    for step in overlay.close_request() {
        if let WindowStep::Respond(response) = step {
            assert_eq!(session.overlay_response(response), vec![]);
        }
    }
    assert!(!session.overlay_open);
    assert_eq!((session.overlay_words, session.buffer.paragraph_len()), (0, 0));
    assert_eq!(session.respawn(), vec![Action::OverlaySpawn]);
    session.spawned(true);
    assert_eq!(session.tick(true, 20 * SECOND), vec![]);
    say(&mut session, &["new", "words"], 20 * SECOND);
    session.tick(true, 22 * SECOND);
    assert_eq!(session.reply(Some(text("New words.")), 23 * SECOND)[0], Action::OverlayChunk {
        corrected: text("New words."),
        start: 0,
        original_len: 2,
    });
}

#[test]
fn an_answer_of_no_overlay_changes_nothing() {
    let mut session = typing();
    say(&mut session, &["one"], 1);
    assert_eq!(session.overlay_response(OverlayResponse::Closed), vec![]);
    assert_eq!(session.buffer.paragraph_len(), 1);
}
