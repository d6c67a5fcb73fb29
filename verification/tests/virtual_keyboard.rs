//! Keyboard plans and pasting.

use ears::clipboard::{
    copy_and_paste, copy_to_clipboard, parse_paste_hotkey, ClipboardError, PASTE_DELAY_MS,
};
use ears::virtual_keyboard::{
    char_to_key, modifier_to_key, needs_shift, resume_after, retype, special_to_key, type_word,
    Delay, EnigoKeyboard, Key, KeyOp, KeyboardError, KeyboardKind, KeyboardTiming, Modifier,
    SpecialKey, UInputKeyboard, VirtualKeyboard,
};

#[test]
fn every_printable_character_has_a_key() {
    for n in 0x20..0x7fu8 {
        assert!(char_to_key(n as char).is_ok(), "{}", n as char);
    }
    assert_eq!(char_to_key('\n'), Ok(Key::Enter));
    assert_eq!(char_to_key('\t'), Ok(Key::Tab));
    assert_eq!(char_to_key('Q'), Ok(Key::Letter('q')));
    assert_eq!(char_to_key('7'), Ok(Key::Digit('7')));
    assert_eq!(char_to_key('&'), Ok(Key::Digit('7')));
    assert_eq!(char_to_key('"'), Ok(Key::Apostrophe));
    assert_eq!(char_to_key('~'), Ok(Key::Grave));
}

#[test]
fn other_characters_have_none() {
    for ch in ['é', '→', '\u{7f}', '\0', '\r'] {
        assert_eq!(char_to_key(ch), Err(KeyboardError::UnsupportedCharacter(ch)));
    }
}

#[test]
fn shifted_characters() {
    for ch in "ABCXYZ!@#$%^&*()_+{}|:\"<>?~".chars() {
        assert!(needs_shift(ch), "{}", ch);
    }
    for ch in "abcxyz1234567890-=[]\\;',./` \n\té".chars() {
        assert!(!needs_shift(ch), "{}", ch);
    }
}

#[test]
fn keys_tell_characters_apart() {
    let typed: Vec<char> = (0x20..0x7fu8).map(|n| n as char).collect();
    for a in &typed {
        for b in &typed {
            let same = char_to_key(*a) == char_to_key(*b) && needs_shift(*a) == needs_shift(*b);
            assert_eq!(same, a == b);
        }
    }
}

#[test]
fn text_on_a_kernel_device() {
    let mut keyboard = UInputKeyboard::new();
    assert_eq!(keyboard.type_text("aé!"), Ok(()));
    assert_eq!(
        keyboard.ops,
        vec![
            KeyOp::Click(Key::Letter('a')),
            KeyOp::Sync,
            KeyOp::Pause(Delay::Character),
            KeyOp::Press(Key::LeftShift),
            KeyOp::Click(Key::Digit('1')),
            KeyOp::Release(Key::LeftShift),
            KeyOp::Sync,
            KeyOp::Pause(Delay::Character),
        ]
    );
}

#[test]
fn special_keys_on_a_kernel_device() {
    let mut keyboard = UInputKeyboard::new();
    keyboard.press_key(SpecialKey::Backspace).unwrap();
    keyboard.press_key(SpecialKey::Enter).unwrap();
    assert_eq!(
        keyboard.ops,
        vec![
            KeyOp::Click(Key::BackSpace),
            KeyOp::Sync,
            KeyOp::Pause(Delay::Backspace),
            KeyOp::Click(Key::Enter),
            KeyOp::Sync,
            KeyOp::Pause(Delay::Key),
        ]
    );
}

#[test]
fn words_are_deleted_with_control() {
    let mut device = UInputKeyboard::new();
    device.delete_words(2).unwrap();
    assert_eq!(device.ops.len(), 10);
    assert_eq!(device.ops[5], KeyOp::Press(Key::LeftControl));
    assert_eq!(device.ops[9], KeyOp::Pause(Delay::Word));
    let mut library = EnigoKeyboard::new();
    library.delete_words(1).unwrap();
    assert_eq!(
        library.ops,
        vec![
            KeyOp::Press(Key::LeftControl),
            KeyOp::Click(Key::BackSpace),
            KeyOp::Release(Key::LeftControl),
            KeyOp::Pause(Delay::Word),
        ]
    );
}

#[test]
fn modifiers_are_held_and_let_go() {
    let mut device = UInputKeyboard::new();
    device.press_modifier(Modifier::Super).unwrap();
    device.release_modifier(Modifier::Super).unwrap();
    assert_eq!(
        device.ops,
        vec![
            KeyOp::Press(Key::LeftMeta),
            KeyOp::Sync,
            KeyOp::Release(Key::LeftMeta),
            KeyOp::Sync,
        ]
    );
    let mut library = EnigoKeyboard::new();
    library.press_modifier(Modifier::Alt).unwrap();
    library.release_modifier(Modifier::Alt).unwrap();
    assert_eq!(library.ops, vec![KeyOp::Press(Key::LeftAlt), KeyOp::Release(Key::LeftAlt)]);
    assert_eq!(modifier_to_key(Modifier::Ctrl), Key::LeftControl);
    assert_eq!(special_to_key(SpecialKey::Escape), Key::Esc);
}

#[test]
fn chords_release_in_reverse() {
    let mut device = UInputKeyboard::new();
    device.send_chord(&[Modifier::Ctrl, Modifier::Shift], 'v').unwrap();
    assert_eq!(
        device.ops,
        vec![
            KeyOp::Press(Key::LeftControl),
            KeyOp::Press(Key::LeftShift),
            KeyOp::Click(Key::Letter('v')),
            KeyOp::Release(Key::LeftShift),
            KeyOp::Release(Key::LeftControl),
            KeyOp::Sync,
            KeyOp::Pause(Delay::Chord),
        ]
    );
    let mut library = EnigoKeyboard::new();
    library.send_chord(&[Modifier::Ctrl], 'é').unwrap();
    assert_eq!(
        library.ops,
        vec![
            KeyOp::Press(Key::LeftControl),
            KeyOp::Click(Key::Unicode('é')),
            KeyOp::Release(Key::LeftControl),
            KeyOp::Pause(Delay::Chord),
        ]
    );
}

#[test]
fn a_chord_without_a_key_stops_half_way() {
    let mut device = UInputKeyboard::new();
    let sent = device.send_chord(&[Modifier::Ctrl], 'é');
    assert_eq!(sent, Err(KeyboardError::UnsupportedCharacter('é')));
    assert_eq!(device.ops, vec![KeyOp::Press(Key::LeftControl)]);
}

#[test]
fn words_are_typed_and_retyped_with_a_space() {
    let mut keyboard = EnigoKeyboard::new();
    type_word(&mut keyboard, "hi").unwrap();
    retype(&mut keyboard, 3, "ho").unwrap();
    assert_eq!(
        keyboard.ops,
        vec![
            KeyOp::Text("hi".to_string()),
            KeyOp::Click(Key::Space),
            KeyOp::Click(Key::BackSpace),
            KeyOp::Click(Key::BackSpace),
            KeyOp::Click(Key::BackSpace),
            KeyOp::Text("ho".to_string()),
            KeyOp::Click(Key::Space),
        ]
    );
}

fn screen_of(ops: &[KeyOp]) -> String {
    let mut screen = String::new();
    let mut shift = false;
    let row: Vec<char> = ")!@#$%^&*(".chars().collect();
    for op in ops {
        match op {
            KeyOp::Press(Key::LeftShift) => shift = true,
            KeyOp::Release(Key::LeftShift) => shift = false,
            KeyOp::Click(Key::BackSpace) => {
                screen.pop();
            }
            KeyOp::Click(Key::Letter(c)) => {
                screen.push(if shift { c.to_ascii_uppercase() } else { *c })
            }
            KeyOp::Click(Key::Digit(c)) => {
                screen.push(if shift { row[*c as usize - '0' as usize] } else { *c })
            }
            KeyOp::Click(Key::Space) => screen.push(' '),
            KeyOp::Click(Key::Dot) => screen.push(if shift { '>' } else { '.' }),
            KeyOp::Click(Key::Comma) => screen.push(if shift { '<' } else { ',' }),
            _ => {}
        }
    }
    screen
}

#[test]
fn retyping_replaces_what_was_typed() {
    let mut keyboard = UInputKeyboard::new();
    type_word(&mut keyboard, "run").unwrap();
    type_word(&mut keyboard, "the").unwrap();
    type_word(&mut keyboard, "bath").unwrap();
    assert_eq!(screen_of(&keyboard.ops), "run the bath ");
    retype(&mut keyboard, "the bath".len() + 1, "THE batch, 100%.").unwrap();
    assert_eq!(screen_of(&keyboard.ops), "run THE batch, 100%. ");
}

#[test]
fn lengths_of_pauses() {
    let timing = KeyboardTiming::default();
    assert_eq!(timing.micros(Delay::Character), 500);
    assert_eq!(timing.micros(Delay::Key), 500);
    assert_eq!(timing.micros(Delay::Backspace), 15_000);
    assert_eq!(timing.micros(Delay::Word), 10_000);
    assert_eq!(timing.micros(Delay::Chord), 5_000);
}

#[test]
fn paste_hotkeys() {
    assert_eq!(parse_paste_hotkey("ctrl+v"), Ok((vec![Modifier::Ctrl], 'v')));
    assert_eq!(
        parse_paste_hotkey("Control+SHIFT+alt+meta+Insert"),
        Ok((vec![Modifier::Ctrl, Modifier::Shift, Modifier::Alt, Modifier::Super], 'I'))
    );
    assert_eq!(parse_paste_hotkey("hyper+super+v"), Ok((vec![Modifier::Super], 'v')));
    assert_eq!(parse_paste_hotkey("v"), Ok((vec![], 'v')));
    assert_eq!(parse_paste_hotkey(" ctrl+v"), Ok((vec![], 'v')));
    assert_eq!(parse_paste_hotkey("ctrl+"), Err(ClipboardError::NoKeyCharacter));
    assert_eq!(parse_paste_hotkey(""), Err(ClipboardError::NoKeyCharacter));
}

#[test]
fn the_clipboard_is_offered_bytes() {
    assert_eq!(copy_to_clipboard("é", true), Ok(vec![0xc3, 0xa9]));
    assert_eq!(copy_to_clipboard("é", false), Err(ClipboardError::Unsupported));
    assert_eq!(PASTE_DELAY_MS, 50);
}

#[test]
fn pasting_sends_the_hotkey_once_copied() {
    let mut keyboard = UInputKeyboard::new();
    assert_eq!(copy_and_paste(Ok(()), &mut keyboard, "ctrl+v"), Ok(()));
    assert_eq!(keyboard.ops.len(), 5);
    let mut keyboard = UInputKeyboard::new();
    let failed = copy_and_paste(Err(ClipboardError::CopyFailed), &mut keyboard, "ctrl+v");
    assert_eq!(failed, Err(ClipboardError::CopyFailed));
    assert_eq!(keyboard.ops, vec![]);
    assert_eq!(
        copy_and_paste(Ok(()), &mut keyboard, "ctrl+é"),
        Err(ClipboardError::Keyboard(KeyboardError::UnsupportedCharacter('é')))
    );
    let mut keyboard = EnigoKeyboard::new();
    assert_eq!(
        copy_and_paste(Ok(()), &mut keyboard, "ctrl+"),
        Err(ClipboardError::NoKeyCharacter)
    );
    assert_eq!(keyboard.ops, vec![]);
}

#[test]
fn a_tilde_is_typed_with_shift() {
    let mut keyboard = UInputKeyboard::new();
    keyboard.type_text("~").unwrap();
    assert_eq!(
        keyboard.ops,
        vec![
            KeyOp::Press(Key::LeftShift),
            KeyOp::Click(Key::Grave),
            KeyOp::Release(Key::LeftShift),
            KeyOp::Sync,
            KeyOp::Pause(Delay::Character),
        ]
    );
}

#[test]
fn characters_that_arrive() {
    assert_eq!(KeyboardKind::Library.arriving_len("café →"), 6);
    assert_eq!(KeyboardKind::Kernel.arriving_len("café →"), 4);
    assert_eq!(KeyboardKind::Kernel.arriving_len("日本"), 0);
    assert_eq!(KeyboardKind::Kernel.arriving_len(""), 0);
}

#[test]
fn typing_goes_on_behind_a_character_that_failed() {
    let mut keyboard = UInputKeyboard::new();
    type_word(&mut keyboard, "aB").unwrap();
    assert_eq!(keyboard.ops.len(), 11);
    assert_eq!(resume_after(&keyboard.ops, 0), Some(3));
    assert_eq!(resume_after(&keyboard.ops, 1), Some(3));
    assert_eq!(resume_after(&keyboard.ops, 4), Some(8));
    assert_eq!(resume_after(&keyboard.ops, 8), None);
    let mut library = EnigoKeyboard::new();
    type_word(&mut library, "aB").unwrap();
    assert_eq!(resume_after(&library.ops, 0), None);
}
