//! States, capturing and files.

use ears::dictation::{
    apply_state_change, encode_chunk, get_pid_file, get_state_dir, get_status_file,
    get_status_tmp_file, path_beneath, server_url, CaptureSwitch, DictationEvent,
    DictationHooksConfig, DictationNotificationConfig, DictationState, EngineArg, Status,
    StateChange, ToggleSource, NOTIFICATION_TITLE,
};

fn notifications(enabled: bool) -> DictationNotificationConfig {
    DictationNotificationConfig {
        enabled,
        start_message: "started".to_string(),
        pause_message: " \t".to_string(),
        stop_message: " stopped ".to_string(),
        processing_message: "processing".to_string(),
    }
}

fn hooks() -> DictationHooksConfig {
    DictationHooksConfig {
        start_command: Some("  echo start \n".to_string()),
        pause_command: Some("   ".to_string()),
        stop_command: None,
    }
}

#[test]
fn a_new_state_brings_status_message_and_command() {
    let mut state = DictationState::Inactive;
    let change =
        apply_state_change(&mut state, DictationState::Listening, &notifications(true), &hooks());
    assert_eq!(
        change,
        Some(StateChange {
            event: DictationEvent::Started,
            status: Status::Listening,
            notification: Some("started".to_string()),
            command: Some("echo start".to_string()),
        })
    );
    assert_eq!(state, DictationState::Listening);
}

#[test]
fn the_same_state_brings_nothing() {
    let mut state = DictationState::Suspended;
    let change =
        apply_state_change(&mut state, DictationState::Suspended, &notifications(true), &hooks());
    assert_eq!(change, None);
    assert_eq!(state, DictationState::Suspended);
}

#[test]
fn blank_messages_and_commands_are_left_out() {
    let mut state = DictationState::Listening;
    let change =
        apply_state_change(&mut state, DictationState::Suspended, &notifications(true), &hooks());
    assert_eq!(
        change,
        Some(StateChange {
            event: DictationEvent::Paused,
            status: Status::Paused,
            notification: None,
            command: None,
        })
    );
}

#[test]
fn messages_are_sent_as_they_are() {
    assert_eq!(
        notifications(true).toggle_notification(DictationEvent::Stopped),
        Some(" stopped ".to_string())
    );
    assert_eq!(notifications(true).processing_notification(), Some("processing".to_string()));
    assert_eq!(notifications(false).toggle_notification(DictationEvent::Started), None);
    assert_eq!(notifications(false).processing_notification(), None);
    assert_eq!(hooks().hook_command(DictationEvent::Stopped), None);
    assert_eq!(NOTIFICATION_TITLE, "eaRS Dictation");
}

#[test]
fn status_files() {
    assert_eq!(Status::Listening.to_json(), r#"{"state":"listening"}"#);
    assert_eq!(Status::Paused.to_json(), r#"{"state":"paused"}"#);
    assert_eq!(Status::Processing.to_json(), r#"{"state":"processing"}"#);
    assert_eq!(Status::Inactive.to_json(), r#"{"state":"inactive"}"#);
    assert_eq!(DictationState::Inactive.status(), Status::Inactive);
    assert_eq!(DictationState::Inactive.event(), DictationEvent::Stopped);
}

#[test]
fn a_toggle_starts_and_stops() {
    let mut switch = CaptureSwitch::new();
    assert!(!switch.should_send(0));
    let on = switch.toggle(5, 500, true, ToggleSource::Signal);
    assert_eq!(on.state, DictationState::Listening);
    assert!(!on.final_correction);
    assert!(on.respawn);
    assert!(switch.should_send(u64::MAX));
    let off = switch.toggle(1_000, 500, true, ToggleSource::Signal);
    assert_eq!(off.state, DictationState::Suspended);
    assert!(off.final_correction);
    assert!(!off.respawn);
}

#[test]
fn only_a_signal_opens_the_overlay_in_preview_mode() {
    let mut switch = CaptureSwitch::new();
    assert!(!switch.toggle(0, 0, true, ToggleSource::Hotkey).respawn);
    let mut switch = CaptureSwitch::new();
    assert!(!switch.toggle(0, 0, false, ToggleSource::Signal).respawn);
}

#[test]
fn audio_is_sent_until_the_grace_is_over() {
    let mut switch = CaptureSwitch::new();
    switch.toggle(0, 500, false, ToggleSource::Hotkey);
    switch.toggle(1_000, 500, false, ToggleSource::Hotkey);
    assert!(switch.should_send(500_001_000));
    assert!(!switch.should_send(500_001_001));
    assert_eq!(switch.grace_until, None);
    assert!(!switch.should_send(1_000));
    switch.toggle(9, u64::MAX, false, ToggleSource::Hotkey);
    switch.toggle(u64::MAX, u64::MAX, false, ToggleSource::Hotkey);
    assert!(switch.should_send(u64::MAX));
    assert!(!switch.capturing);
}

#[test]
fn the_state_directory() {
    assert_eq!(get_state_dir(Some("/var/state"), Some("/home/me")), "/var/state/ears");
    assert_eq!(get_state_dir(Some("/var/state/"), None), "/var/state/ears");
    assert_eq!(get_state_dir(Some(""), Some("/home/me")), "/home/me/.local/state/ears");
    assert_eq!(get_state_dir(None, Some("")), ".local/state/ears");
    assert_eq!(get_state_dir(None, None), "./.local/state/ears");
    for (dir, relative) in [("/a", "b"), ("/a/", "b"), ("", "b"), ("/", "b/c"), (".", "x")] {
        let expected = std::path::PathBuf::from(dir).join(relative);
        assert_eq!(path_beneath(dir, relative), expected.to_str().unwrap());
    }
}

#[test]
fn the_files_in_the_state_directory() {
    assert_eq!(get_pid_file("/s/ears"), "/s/ears/dictation.pid");
    assert_eq!(get_status_file("/s/ears"), "/s/ears/status.json");
    let tmp = std::path::PathBuf::from("/s/ears/status.json").with_extension("tmp");
    assert_eq!(get_status_tmp_file("/s/ears"), tmp.to_str().unwrap());
}

#[test]
fn the_address_of_the_server() {
    assert_eq!(server_url(None, 8765), "ws://127.0.0.1:8765");
    assert_eq!(server_url(None, 0), "ws://127.0.0.1:0");
    assert_eq!(server_url(Some("ws://there:1".to_string()), 8765), "ws://there:1");
}

#[test]
fn engines_have_names() {
    assert_eq!(EngineArg::Kyutai.as_str(), "kyutai");
    assert_eq!(EngineArg::Parakeet.as_str(), "parakeet");
}

#[test]
fn samples_are_sent_lowest_byte_first() {
    let samples = [0.0f32, 1.0, -0.5, f32::MIN_POSITIVE, f32::NAN];
    let bits: Vec<u32> = samples.iter().map(|sample| sample.to_bits()).collect();
    let expected: Vec<u8> = samples.iter().flat_map(|sample| sample.to_le_bytes()).collect();
    assert_eq!(encode_chunk(&bits), expected);
    assert_eq!(encode_chunk(&[0x0403_0201]), vec![1, 2, 3, 4]);
    assert_eq!(encode_chunk(&[]), Vec::<u8>::new());
}
