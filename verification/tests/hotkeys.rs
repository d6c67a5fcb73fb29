//! Global hotkeys.

use ears::hotkeys::{parse_combo, Fired, HotKey, HotkeyTracker, KeyInput};

const NONE: Fired = Fired { toggle: false, checkpoint: false, commit: false };

#[test]
fn hotkeys_are_read() {
    assert_eq!(parse_combo("ctrl+shift+v"), (true, true, false, HotKey::Letter('v')));
    assert_eq!(parse_combo(" Control + ALT + Enter "), (true, false, true, HotKey::Return));
    assert_eq!(parse_combo("kp_add"), (false, false, false, HotKey::KpPlus));
    assert_eq!(parse_combo("numpadminus"), (false, false, false, HotKey::KpMinus));
    assert_eq!(parse_combo("KPEnter"), (false, false, false, HotKey::KpReturn));
    assert_eq!(parse_combo("esc"), (false, false, false, HotKey::Escape));
    assert_eq!(parse_combo("shift+space"), (false, true, false, HotKey::Space));
    assert_eq!(parse_combo("tab+delete"), (false, false, false, HotKey::Delete));
    assert_eq!(parse_combo("backspace"), (false, false, false, HotKey::Backspace));
}

#[test]
fn parts_without_meaning() {
    assert_eq!(parse_combo(""), (false, false, false, HotKey::Unknown(0)));
    assert_eq!(parse_combo("a+f12"), (false, false, false, HotKey::Letter('a')));
    assert_eq!(parse_combo("a+1"), (false, false, false, HotKey::Unknown(0)));
    assert_eq!(parse_combo("a+é"), (false, false, false, HotKey::Letter('a')));
    assert_eq!(parse_combo("super+z"), (false, false, false, HotKey::Letter('z')));
}

#[test]
fn modifiers_stand_anywhere() {
    assert_eq!(parse_combo("v+ctrl+alt"), parse_combo("alt+v+ctrl"));
    assert_eq!(parse_combo("v+ctrl+alt"), (true, false, true, HotKey::Letter('v')));
}

#[test]
fn a_toggle_fires_when_its_key_goes_up() {
    let mut tracker = HotkeyTracker::new("Ctrl+Shift+V", false, "", "");
    assert_eq!(tracker.handle(KeyInput::Press(HotKey::ControlRight), true), NONE);
    assert_eq!(tracker.handle(KeyInput::Press(HotKey::ShiftLeft), true), NONE);
    assert_eq!(tracker.handle(KeyInput::Press(HotKey::Letter('v')), true), NONE);
    let fired = tracker.handle(KeyInput::Release(HotKey::Letter('v')), true);
    assert_eq!(fired, Fired { toggle: true, ..NONE });
    assert_eq!(tracker.handle(KeyInput::Release(HotKey::Letter('v')), false), NONE);
    assert_eq!(tracker.handle(KeyInput::Release(HotKey::ShiftRight), true), NONE);
    assert_eq!(tracker.handle(KeyInput::Release(HotKey::Letter('v')), true), NONE);
    assert_eq!(tracker.handle(KeyInput::Other, true), NONE);
}

#[test]
fn further_modifiers_keep_a_hotkey_from_firing() {
    let mut tracker = HotkeyTracker::new("v", false, "", "");
    tracker.handle(KeyInput::Press(HotKey::AltGr), true);
    assert_eq!(tracker.handle(KeyInput::Release(HotKey::Letter('v')), true), NONE);
    tracker.handle(KeyInput::Release(HotKey::Alt), true);
    assert!(tracker.handle(KeyInput::Release(HotKey::Letter('v')), true).toggle);
}

#[test]
fn preview_mode_has_two_more_hotkeys() {
    let mut tracker = HotkeyTracker::new("v", true, "kpminus", "kpadd");
    let minus = KeyInput::Release(HotKey::KpMinus);
    let plus = KeyInput::Release(HotKey::KpPlus);
    assert_eq!(tracker.handle(minus, true), Fired { checkpoint: true, ..NONE });
    assert_eq!(tracker.handle(plus, true), Fired { commit: true, ..NONE });
    let mut plain = HotkeyTracker::new("v", false, "kpminus", "kpadd");
    assert_eq!(plain.handle(minus, true), NONE);
    assert_eq!(plain.handle(plus, true), NONE);
    assert_eq!(plain.handle(KeyInput::Release(HotKey::Unknown(0)), true), NONE);
}

#[test]
fn one_key_can_fire_several_hotkeys() {
    let mut tracker = HotkeyTracker::new("x", true, "x", "x");
    let all = Fired { toggle: true, checkpoint: true, commit: true };
    assert_eq!(tracker.handle(KeyInput::Release(HotKey::Letter('x')), true), all);
}
