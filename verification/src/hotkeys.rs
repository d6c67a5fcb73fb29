//! Global hotkeys: how they are written and when they fire.

use crate::text;
use crate::text::{byte_len, char_list, same_text, split_at, trim_text, CharClass};
use vstd::prelude::*;

verus! {

/// A key as the hotkey listener reports it.
#[derive(Debug, Clone, Copy, PartialEq, Eq, Structural)]
pub enum HotKey {
    /// A letter key, named by its small letter.
    Letter(char),
    Return,
    KpPlus,
    KpMinus,
    KpReturn,
    Space,
    Tab,
    Escape,
    Backspace,
    Delete,
    ControlLeft,
    ControlRight,
    ShiftLeft,
    ShiftRight,
    Alt,
    AltGr,
    /// A key that has only a code.
    Unknown(u32),
    /// Any other key.
    Other,
}

/// A hotkey: whether control, shift and alt are held, and the key.
pub type Combo = (bool, bool, bool, HotKey);

/// The key that a part of a written hotkey names by more than its character.
pub open spec fn named_key(part: Seq<char>) -> Option<HotKey> {
    if part == "return"@ || part == "enter"@ {
        Some(HotKey::Return)
    } else if part == "kpadd"@ || part == "kp_add"@ || part == "numpadplus"@ {
        Some(HotKey::KpPlus)
    } else if part == "kpminus"@ || part == "kp_minus"@ || part == "numpadminus"@ {
        Some(HotKey::KpMinus)
    } else if part == "kpenter"@ || part == "kp_enter"@ || part == "numpadenter"@ {
        Some(HotKey::KpReturn)
    } else if part == "space"@ {
        Some(HotKey::Space)
    } else if part == "tab"@ {
        Some(HotKey::Tab)
    } else if part == "escape"@ || part == "esc"@ {
        Some(HotKey::Escape)
    } else if part == "backspace"@ {
        Some(HotKey::Backspace)
    } else if part == "delete"@ {
        Some(HotKey::Delete)
    } else {
        None
    }
}

/// The key of a single character: a letter key, or none that is known.
pub open spec fn character_key(ch: char) -> HotKey {
    if 'a' <= ch <= 'z' {
        HotKey::Letter(ch)
    } else {
        HotKey::Unknown(0)
    }
}

/// A hotkey with one more part of its notation. A part that means nothing is ignored.
pub open spec fn with_part(combo: Combo, part: Seq<char>) -> Combo {
    if part == "ctrl"@ || part == "control"@ {
        (true, combo.1, combo.2, combo.3)
    } else if part == "shift"@ {
        (combo.0, true, combo.2, combo.3)
    } else if part == "alt"@ {
        (combo.0, combo.1, true, combo.3)
    } else if named_key(part) is Some {
        (combo.0, combo.1, combo.2, named_key(part)->0)
    } else if text::bytes(part) == 1 {
        (combo.0, combo.1, combo.2, character_key(part[0]))
    } else {
        combo
    }
}

/// The hotkey of a list of parts. The last part that names a key decides the key.
pub open spec fn combo_of(parts: Seq<Seq<char>>) -> Combo
    decreases parts.len(),
{
    if parts.len() == 0 {
        (false, false, false, HotKey::Unknown(0))
    } else {
        with_part(combo_of(parts.drop_last()), parts.last())
    }
}

/// A part of a written hotkey as it is compared: trimmed and in lower case.
pub open spec fn clean_part(part: Seq<char>) -> Seq<char> {
    text::lowercase(text::trimmed(part, CharClass::WhiteSpace))
}

/// The hotkey that a notation such as `ctrl+shift+v` stands for.
pub open spec fn combo_text(s: Seq<char>) -> Combo {
    combo_of(text::split(s, '+').map_values(|part: Seq<char>| clean_part(part)))
}

/// The key that a part of a written hotkey names by more than its character.
fn find_named_key(part: &str) -> (r: Option<HotKey>)
    ensures
        r == named_key(part@),
{
    if same_text(part, "return") || same_text(part, "enter") {
        Some(HotKey::Return)
    } else if same_text(part, "kpadd") || same_text(part, "kp_add") || same_text(
        part,
        "numpadplus",
    ) {
        Some(HotKey::KpPlus)
    } else if same_text(part, "kpminus") || same_text(part, "kp_minus") || same_text(
        part,
        "numpadminus",
    ) {
        Some(HotKey::KpMinus)
    } else if same_text(part, "kpenter") || same_text(part, "kp_enter") || same_text(
        part,
        "numpadenter",
    ) {
        Some(HotKey::KpReturn)
    } else if same_text(part, "space") {
        Some(HotKey::Space)
    } else if same_text(part, "tab") {
        Some(HotKey::Tab)
    } else if same_text(part, "escape") || same_text(part, "esc") {
        Some(HotKey::Escape)
    } else if same_text(part, "backspace") {
        Some(HotKey::Backspace)
    } else if same_text(part, "delete") {
        Some(HotKey::Delete)
    } else {
        None
    }
}

/// A hotkey with one more part of its notation.
fn add_part(combo: Combo, part: &str) -> (r: Combo)
    ensures
        r == with_part(combo, part@),
{
    let (ctrl, shift, alt, key) = combo;
    if same_text(part, "ctrl") || same_text(part, "control") {
        return (true, shift, alt, key);
    }
    if same_text(part, "shift") {
        return (ctrl, true, alt, key);
    }
    if same_text(part, "alt") {
        return (ctrl, shift, true, key);
    }
    if let Some(named) = find_named_key(part) {
        return (ctrl, shift, alt, named);
    }
    if byte_len(part) == 1 {
        let list = char_list(part);
        assert(part@.len() > 0);
        let ch = list[0];
        let key = if 'a' <= ch && ch <= 'z' {
            HotKey::Letter(ch)
        } else {
            HotKey::Unknown(0)
        };
        return (ctrl, shift, alt, key);
    }
    combo
}

/// Reads a notation such as `ctrl+shift+v`: whether control, shift and alt are held, and
/// the key.
pub fn parse_combo(s: &str) -> (r: (bool, bool, bool, HotKey))
    ensures
        r == combo_text(s@),
{
    let parts = split_at(s, '+');
    let ghost clean = text::split(s@, '+').map_values(|part: Seq<char>| clean_part(part));
    let mut combo: Combo = (false, false, false, HotKey::Unknown(0));
    let mut i: usize = 0;
    while i < parts.len()
        invariant
            i <= parts.len(),
            text::texts(parts@) == text::split(s@, '+'),
            clean == text::split(s@, '+').map_values(|part: Seq<char>| clean_part(part)),
            combo == combo_of(clean.take(i as int)),
        decreases parts.len() - i,
    {
        let core = trim_text(parts[i].as_str(), CharClass::WhiteSpace);
        let part = core.as_str().to_lowercase();
        proof {
            assert(text::texts(parts@)[i as int] == parts@[i as int]@);
            assert(clean.take(i + 1).drop_last() =~= clean.take(i as int));
            assert(clean.take(i + 1).last() == part@);
        }
        combo = add_part(combo, part.as_str());
        i += 1;
    }
    assert(clean.take(clean.len() as int) =~= clean);
    combo
}

/// A key event of the listener.
#[derive(Debug, Clone, Copy, PartialEq, Eq, Structural)]
pub enum KeyInput {
    Press(HotKey),
    Release(HotKey),
    Other,
}

/// The hotkeys that an event fires.
#[derive(Debug, Clone, Copy, PartialEq, Eq, Structural)]
pub struct Fired {
    pub toggle: bool,
    pub checkpoint: bool,
    pub commit: bool,
}

/// A modifier of hotkeys.
#[derive(Debug, Clone, Copy, PartialEq, Eq, Structural)]
pub enum Held {
    Ctrl,
    Shift,
    Alt,
}

/// The modifier that a key is.
pub open spec fn modifier_of(key: HotKey) -> Option<Held> {
    match key {
        HotKey::ControlLeft | HotKey::ControlRight => Some(Held::Ctrl),
        HotKey::ShiftLeft | HotKey::ShiftRight => Some(Held::Shift),
        HotKey::Alt | HotKey::AltGr => Some(Held::Alt),
        _ => None,
    }
}

/// The modifier that a key is.
fn held_modifier(key: HotKey) -> (r: Option<Held>)
    ensures
        r == modifier_of(key),
{
    match key {
        HotKey::ControlLeft | HotKey::ControlRight => Some(Held::Ctrl),
        HotKey::ShiftLeft | HotKey::ShiftRight => Some(Held::Shift),
        HotKey::Alt | HotKey::AltGr => Some(Held::Alt),
        _ => None,
    }
}

/// Follows the modifiers and tells which hotkeys fire.
#[derive(Debug, Clone, Copy)]
pub struct HotkeyTracker {
    pub ctrl: bool,
    pub shift: bool,
    pub alt: bool,
    /// Starts and stops capturing.
    pub toggle: Combo,
    /// Whether the other two hotkeys are in use.
    pub preview: bool,
    /// Pastes the buffer and goes on.
    pub checkpoint: Combo,
    /// Pastes everything.
    pub commit: Combo,
}

impl HotkeyTracker {
    /// Whether the held modifiers and the key are those of a hotkey.
    pub open spec fn matches(&self, combo: Combo, key: HotKey) -> bool {
        (self.ctrl, self.shift, self.alt, key) == combo
    }

    /// The tracker with a modifier held or not.
    pub open spec fn with_held(self, held: Held, down: bool) -> HotkeyTracker {
        match held {
            Held::Ctrl => HotkeyTracker { ctrl: down, ..self },
            Held::Shift => HotkeyTracker { shift: down, ..self },
            Held::Alt => HotkeyTracker { alt: down, ..self },
        }
    }

    /// The tracker after an event.
    pub open spec fn after(self, event: KeyInput) -> HotkeyTracker {
        match event {
            KeyInput::Press(key) => match modifier_of(key) {
                Some(held) => self.with_held(held, true),
                None => self,
            },
            KeyInput::Release(key) => match modifier_of(key) {
                Some(held) => self.with_held(held, false),
                None => self,
            },
            KeyInput::Other => self,
        }
    }

    /// The hotkeys that an event fires: those whose key goes up while exactly their
    /// modifiers are held.
    pub open spec fn fires(self, event: KeyInput, running: bool) -> Fired {
        match event {
            KeyInput::Release(key) => {
                let live = running && modifier_of(key) is None;
                Fired {
                    toggle: live && self.matches(self.toggle, key),
                    checkpoint: live && self.preview && self.matches(self.checkpoint, key),
                    commit: live && self.preview && self.matches(self.commit, key),
                }
            },
            _ => Fired { toggle: false, checkpoint: false, commit: false },
        }
    }

    /// A tracker with no modifier held. Outside of preview mode only the toggle is read.
    pub fn new(toggle: &str, preview: bool, checkpoint: &str, commit: &str) -> (r: Self)
        ensures
            r == (HotkeyTracker {
                ctrl: false,
                shift: false,
                alt: false,
                toggle: combo_text(text::lowercase(toggle@)),
                preview,
                checkpoint: if preview {
                    combo_text(checkpoint@)
                } else {
                    (false, false, false, HotKey::Unknown(0))
                },
                commit: if preview {
                    combo_text(commit@)
                } else {
                    (false, false, false, HotKey::Unknown(0))
                },
            }),
    {
        let lowered = toggle.to_lowercase();
        let none: Combo = (false, false, false, HotKey::Unknown(0));
        HotkeyTracker {
            ctrl: false,
            shift: false,
            alt: false,
            toggle: parse_combo(lowered.as_str()),
            preview,
            checkpoint: if preview { parse_combo(checkpoint) } else { none },
            commit: if preview { parse_combo(commit) } else { none },
        }
    }

    /// Notes whether a modifier is held.
    fn hold(&mut self, held: Held, down: bool)
        ensures
            *final(self) == old(self).with_held(held, down),
    {
        match held {
            Held::Ctrl => {
                self.ctrl = down;
            },
            Held::Shift => {
                self.shift = down;
            },
            Held::Alt => {
                self.alt = down;
            },
        }
    }

    /// Whether the held modifiers and the key are those of a hotkey.
    fn is_match(&self, combo: Combo, key: HotKey) -> (r: bool)
        ensures
            r == self.matches(combo, key),
    {
        self.ctrl == combo.0 && self.shift == combo.1 && self.alt == combo.2 && key == combo.3
    }

    /// Handles an event; while the client does not run, nothing fires.
    pub fn handle(&mut self, event: KeyInput, running: bool) -> (r: Fired)
        ensures
            *final(self) == old(self).after(event),
            r == old(self).fires(event, running),
    {
        let none = Fired { toggle: false, checkpoint: false, commit: false };
        match event {
            KeyInput::Press(key) => {
                if let Some(held) = held_modifier(key) {
                    self.hold(held, true);
                }
                none
            },
            KeyInput::Release(key) => {
                if let Some(held) = held_modifier(key) {
                    self.hold(held, false);
                    return none;
                }
                if !running {
                    return none;
                }
                Fired {
                    toggle: self.is_match(self.toggle, key),
                    checkpoint: self.preview && self.is_match(self.checkpoint, key),
                    commit: self.preview && self.is_match(self.commit, key),
                }
            },
            KeyInput::Other => none,
        }
    }
}

/// Whether a part of a written hotkey names a modifier.
pub open spec fn modifier_part(part: Seq<char>) -> bool {
    part == "ctrl"@ || part == "control"@ || part == "shift"@ || part == "alt"@
}

/// It does not matter where in a written hotkey a modifier stands.
pub proof fn law_modifiers_stand_anywhere(combo: Combo, modifier: Seq<char>, other: Seq<char>)
    requires
        modifier_part(modifier),
    ensures
        with_part(with_part(combo, modifier), other) == with_part(
            with_part(combo, other),
            modifier,
        ),
{
}

/// A hotkey fires only when a key that is no modifier goes up while the client runs.
pub proof fn law_hotkeys_fire_on_release(tracker: HotkeyTracker, event: KeyInput, running: bool)
    ensures
        ({
            let fired = tracker.fires(event, running);
            fired.toggle || fired.checkpoint || fired.commit ==> running && (
            event matches KeyInput::Release(key) && modifier_of(key) is None)
        }),
        !tracker.preview ==> !tracker.fires(event, running).checkpoint && !tracker.fires(
            event,
            running,
        ).commit,
{
}

/// Events never change the hotkeys, and a modifier that goes down and up again leaves
/// nothing held that was not held before.
pub proof fn law_modifiers_are_let_go(tracker: HotkeyTracker, event: KeyInput, key: HotKey)
    ensures
        tracker.after(event).toggle == tracker.toggle,
        tracker.after(event).checkpoint == tracker.checkpoint,
        tracker.after(event).commit == tracker.commit,
        tracker.after(event).preview == tracker.preview,
        ({
            let after = tracker.after(KeyInput::Press(key)).after(KeyInput::Release(key));
            (after.ctrl ==> tracker.ctrl) && (after.shift ==> tracker.shift) && (after.alt
                ==> tracker.alt)
        }),
{
}

} // verus!
