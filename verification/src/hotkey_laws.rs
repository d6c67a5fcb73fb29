//! What hotkeys are written like, which modifiers are held, and when hotkeys fire.

use crate::hotkeys;
use crate::hotkeys::{Combo, Fired, HotKey, HotkeyTracker, KeyInput};
use crate::text;
use crate::text::CharClass;
use crate::text_laws;
use vstd::prelude::*;
use vstd::utf8::*;

verus! {

/// A tracker after several events.
pub open spec fn after_all(tracker: HotkeyTracker, events: Seq<KeyInput>) -> HotkeyTracker
    decreases events.len(),
{
    if events.len() == 0 {
        tracker
    } else {
        after_all(tracker, events.drop_last()).after(events.last())
    }
}

/// Whether one of two keys was pressed at a place of the events, and neither of them went up
/// since.
pub open spec fn down_since(
    events: Seq<KeyInput>,
    place: int,
    left: HotKey,
    right: HotKey,
) -> bool {
    &&& 0 <= place < events.len()
    &&& events[place] == KeyInput::Press(left) || events[place] == KeyInput::Press(right)
    &&& forall|i: int|
        place < i < events.len() ==> #[trigger] events[i] != KeyInput::Release(left) && events[i]
            != KeyInput::Release(right)
}

/// Whether one of two keys is down after the events.
pub open spec fn is_down(events: Seq<KeyInput>, left: HotKey, right: HotKey) -> bool {
    exists|place: int| down_since(events, place, left, right)
}

/// One event more: a press of either key makes it down, a release of either makes it up, and any
/// other event leaves it.
proof fn lemma_down(events: Seq<KeyInput>, left: HotKey, right: HotKey)
    requires
        events.len() > 0,
    ensures
        is_down(events, left, right) <==> {
            ||| events.last() == KeyInput::Press(left)
            ||| events.last() == KeyInput::Press(right)
            ||| is_down(events.drop_last(), left, right) && events.last() != KeyInput::Release(left)
                && events.last() != KeyInput::Release(right)
        },
{
    let before = events.drop_last();
    let end = events.len() - 1;
    if events.last() == KeyInput::Press(left) || events.last() == KeyInput::Press(right) {
        assert(down_since(events, end, left, right));
    }
    if is_down(before, left, right) && events.last() != KeyInput::Release(left) && events.last()
        != KeyInput::Release(right) {
        let place = choose|place: int| down_since(before, place, left, right);
        assert(before[place] == events[place]);
        assert forall|i: int| place < i < events.len() implies #[trigger] events[i]
            != KeyInput::Release(left) && events[i] != KeyInput::Release(right) by {
            if i < end {
                assert(before[i] == events[i]);
            }
        }
        assert(down_since(events, place, left, right));
    }
    if is_down(events, left, right) {
        let place = choose|place: int| down_since(events, place, left, right);
        if place < end {
            assert(events[end] != KeyInput::Release(left));
            assert(before[place] == events[place]);
            assert forall|i: int| place < i < before.len() implies #[trigger] before[i]
                != KeyInput::Release(left) && before[i] != KeyInput::Release(right) by {
                assert(events[i] == before[i]);
            }
            assert(down_since(before, place, left, right));
        }
    }
}

/// Control is held after any events exactly where the left or the right control key was pressed
/// and neither went up since; likewise shift and alt.
pub proof fn law_modifiers_are_held(tracker: HotkeyTracker, events: Seq<KeyInput>)
    requires
        !tracker.ctrl,
        !tracker.shift,
        !tracker.alt,
    ensures
        after_all(tracker, events).ctrl <==> is_down(
            events,
            HotKey::ControlLeft,
            HotKey::ControlRight,
        ),
        after_all(tracker, events).shift <==> is_down(
            events,
            HotKey::ShiftLeft,
            HotKey::ShiftRight,
        ),
        after_all(tracker, events).alt <==> is_down(events, HotKey::Alt, HotKey::AltGr),
        after_all(tracker, events).toggle == tracker.toggle,
        after_all(tracker, events).checkpoint == tracker.checkpoint,
        after_all(tracker, events).commit == tracker.commit,
        after_all(tracker, events).preview == tracker.preview,
    decreases events.len(),
{
    if events.len() > 0 {
        law_modifiers_are_held(tracker, events.drop_last());
        lemma_down(events, HotKey::ControlLeft, HotKey::ControlRight);
        lemma_down(events, HotKey::ShiftLeft, HotKey::ShiftRight);
        lemma_down(events, HotKey::Alt, HotKey::AltGr);
    }
}

/// Whether a key is one of the six modifier keys.
pub open spec fn is_modifier(key: HotKey) -> bool {
    key == HotKey::ControlLeft || key == HotKey::ControlRight || key == HotKey::ShiftLeft || key
        == HotKey::ShiftRight || key == HotKey::Alt || key == HotKey::AltGr
}

/// Whether a hotkey asks for just the modifiers that are down after the events, and for a key.
pub open spec fn asked_for(combo: Combo, events: Seq<KeyInput>, key: HotKey) -> bool {
    &&& combo.0 <==> is_down(events, HotKey::ControlLeft, HotKey::ControlRight)
    &&& combo.1 <==> is_down(events, HotKey::ShiftLeft, HotKey::ShiftRight)
    &&& combo.2 <==> is_down(events, HotKey::Alt, HotKey::AltGr)
    &&& combo.3 == key
}

/// A hotkey fires when its key goes up while just its modifiers are down, by the left or the
/// right keys, whatever came before; the second and third only in preview mode. A modifier key,
/// a key that goes down and a client that does not run fire nothing.
pub proof fn law_hotkeys_fire(
    tracker: HotkeyTracker,
    events: Seq<KeyInput>,
    key: HotKey,
    running: bool,
)
    requires
        !tracker.ctrl,
        !tracker.shift,
        !tracker.alt,
    ensures
        ({
            let fired = after_all(tracker, events).fires(KeyInput::Release(key), running);
            let live = running && !is_modifier(key);
            &&& fired.toggle <==> live && asked_for(tracker.toggle, events, key)
            &&& fired.checkpoint <==> live && tracker.preview && asked_for(
                tracker.checkpoint,
                events,
                key,
            )
            &&& fired.commit <==> live && tracker.preview && asked_for(
                tracker.commit,
                events,
                key,
            )
        }),
        ({
            let none = Fired { toggle: false, checkpoint: false, commit: false };
            &&& after_all(tracker, events).fires(KeyInput::Press(key), running) == none
            &&& after_all(tracker, events).fires(KeyInput::Other, running) == none
        }),
{
    law_modifiers_are_held(tracker, events);
}

/// Whether one of the parts of a written hotkey is one of two names.
pub open spec fn names(parts: Seq<Seq<char>>, one: Seq<char>, other: Seq<char>) -> bool {
    exists|i: int| 0 <= i < parts.len() && (#[trigger] parts[i] == one || parts[i] == other)
}

/// One part more.
proof fn lemma_names(parts: Seq<Seq<char>>, one: Seq<char>, other: Seq<char>)
    requires
        parts.len() > 0,
    ensures
        names(parts, one, other) <==> names(parts.drop_last(), one, other) || parts.last() == one
            || parts.last() == other,
{
    let before = parts.drop_last();
    let end = parts.len() - 1;
    if names(before, one, other) {
        let i = choose|i: int|
            0 <= i < before.len() && (#[trigger] before[i] == one || before[i] == other);
        assert(parts[i] == before[i]);
    }
    if parts.last() == one || parts.last() == other {
        assert(parts[end] == parts.last());
    }
    if names(parts, one, other) {
        let i = choose|i: int|
            0 <= i < parts.len() && (#[trigger] parts[i] == one || parts[i] == other);
        if i < end {
            assert(before[i] == parts[i]);
        }
    }
}

/// The names of modifiers differ from each other.
proof fn lemma_modifier_names()
    ensures
        "ctrl"@ != "shift"@,
        "ctrl"@ != "alt"@,
        "control"@ != "shift"@,
        "control"@ != "alt"@,
        "shift"@ != "alt"@,
{
    reveal_strlit("ctrl");
    reveal_strlit("control");
    reveal_strlit("shift");
    reveal_strlit("alt");
    assert("ctrl"@.len() == 4 && "control"@.len() == 7 && "shift"@.len() == 5 && "alt"@.len() == 3);
}

/// A written hotkey asks for a modifier exactly where one of its parts names it.
pub proof fn law_modifiers_are_read(parts: Seq<Seq<char>>)
    ensures
        hotkeys::combo_of(parts).0 <==> names(parts, "ctrl"@, "control"@),
        hotkeys::combo_of(parts).1 <==> names(parts, "shift"@, "shift"@),
        hotkeys::combo_of(parts).2 <==> names(parts, "alt"@, "alt"@),
    decreases parts.len(),
{
    if parts.len() > 0 {
        law_modifiers_are_read(parts.drop_last());
        lemma_names(parts, "ctrl"@, "control"@);
        lemma_names(parts, "shift"@, "shift"@);
        lemma_names(parts, "alt"@, "alt"@);
        lemma_modifier_names();
    }
}

/// The keys with names, each with its names.
pub open spec fn key_written(part: Seq<char>, key: HotKey) -> bool {
    match key {
        HotKey::Return => part == "return"@ || part == "enter"@,
        HotKey::KpPlus => part == "kpadd"@ || part == "kp_add"@ || part == "numpadplus"@,
        HotKey::KpMinus => part == "kpminus"@ || part == "kp_minus"@ || part == "numpadminus"@,
        HotKey::KpReturn => part == "kpenter"@ || part == "kp_enter"@ || part == "numpadenter"@,
        HotKey::Space => part == "space"@,
        HotKey::Tab => part == "tab"@,
        HotKey::Escape => part == "escape"@ || part == "esc"@,
        HotKey::Backspace => part == "backspace"@,
        HotKey::Delete => part == "delete"@,
        HotKey::Letter(letter) => part == seq![letter] && 'a' <= letter <= 'z',
        _ => false,
    }
}

/// The names of modifiers and keys differ: by their lengths, or by a character.
proof fn lemma_names_differ()
    ensures
        "ctrl"@.len() == 4,
        "control"@.len() == 7 && "control"@[2] == 'n',
        "shift"@.len() == 5 && "shift"@[3] == 'f',
        "alt"@.len() == 3 && "alt"@[0] == 'a',
        "return"@.len() == 6 && "return"@[0] == 'r',
        "enter"@.len() == 5 && "enter"@[3] == 'e',
        "kpadd"@.len() == 5 && "kpadd"@[3] == 'd',
        "kp_add"@.len() == 6 && "kp_add"@[0] == 'k',
        "numpadplus"@.len() == 10,
        "kpminus"@.len() == 7 && "kpminus"@[2] == 'm',
        "kp_minus"@.len() == 8 && "kp_minus"@[3] == 'm',
        "numpadminus"@.len() == 11 && "numpadminus"@[6] == 'm',
        "kpenter"@.len() == 7 && "kpenter"@[2] == 'e',
        "kp_enter"@.len() == 8 && "kp_enter"@[3] == 'e',
        "numpadenter"@.len() == 11 && "numpadenter"@[6] == 'e',
        "space"@.len() == 5 && "space"@[3] == 'c',
        "tab"@.len() == 3 && "tab"@[0] == 't',
        "escape"@.len() == 6 && "escape"@[0] == 'e',
        "esc"@.len() == 3 && "esc"@[0] == 'e',
        "backspace"@.len() == 9,
        "delete"@.len() == 6 && "delete"@[0] == 'd',
{
    reveal_strlit("ctrl");
    reveal_strlit("control");
    reveal_strlit("shift");
    reveal_strlit("alt");
    reveal_strlit("return");
    reveal_strlit("enter");
    reveal_strlit("kpadd");
    reveal_strlit("kp_add");
    reveal_strlit("numpadplus");
    reveal_strlit("kpminus");
    reveal_strlit("kp_minus");
    reveal_strlit("numpadminus");
    reveal_strlit("kpenter");
    reveal_strlit("kp_enter");
    reveal_strlit("numpadenter");
    reveal_strlit("space");
    reveal_strlit("tab");
    reveal_strlit("escape");
    reveal_strlit("esc");
    reveal_strlit("backspace");
    reveal_strlit("delete");
}

/// Whether a part is one of the names of modifiers and keys of more than one character.
pub open spec fn is_name(part: Seq<char>) -> bool {
    ||| part == "ctrl"@ || part == "control"@ || part == "shift"@ || part == "alt"@
    ||| part == "return"@ || part == "enter"@ || part == "space"@ || part == "tab"@
    ||| part == "kpadd"@ || part == "kp_add"@ || part == "numpadplus"@
    ||| part == "kpminus"@ || part == "kp_minus"@ || part == "numpadminus"@
    ||| part == "kpenter"@ || part == "kp_enter"@ || part == "numpadenter"@
    ||| part == "escape"@ || part == "esc"@ || part == "backspace"@ || part == "delete"@
}

/// A single character that is no small letter asks for no known key, and a longer part that is
/// no name is ignored.
pub proof fn law_other_parts(combo: Combo, part: Seq<char>)
    requires
        is_ascii_chars(part),
        !is_name(part),
    ensures
        part.len() == 1 && !('a' <= part[0] <= 'z') ==> hotkeys::with_part(combo, part) == (
            combo.0,
            combo.1,
            combo.2,
            HotKey::Unknown(0),
        ),
        part.len() != 1 ==> hotkeys::with_part(combo, part) == combo,
{
    is_ascii_chars_encode_utf8(part);
}

/// A part that names a key makes it the key of the hotkey and leaves the modifiers; a part that
/// names a modifier leaves the key.
pub proof fn law_keys_are_read(combo: Combo, part: Seq<char>, key: HotKey)
    ensures
        key_written(part, key) ==> hotkeys::with_part(combo, part) == (
            combo.0,
            combo.1,
            combo.2,
            key,
        ),
        part == "ctrl"@ || part == "control"@ || part == "shift"@ || part == "alt"@
            ==> hotkeys::with_part(combo, part).3 == combo.3,
{
    lemma_names_differ();
    if key_written(part, key) {
        if let HotKey::Letter(letter) = key {
            assert(part.len() == 1 && part[0] == letter);
            assert(is_ascii_chars(part));
            is_ascii_chars_encode_utf8(part);
            assert(text::bytes(part) == 1);
        }
    }
}

/// A hotkey that is written in two parts asks for the modifiers of both.
pub proof fn law_notation_in_two_parts(first: Seq<char>, second: Seq<char>)
    ensures
        ({
            let both = hotkeys::combo_text(first.push('+') + second);
            let one = hotkeys::combo_text(first);
            let other = hotkeys::combo_text(second);
            &&& both.0 == (one.0 || other.0)
            &&& both.1 == (one.1 || other.1)
            &&& both.2 == (one.2 || other.2)
        }),
{
    let clean = |part: Seq<char>| hotkeys::clean_part(part);
    let a = text::split(first, '+').map_values(clean);
    let b = text::split(second, '+').map_values(clean);
    let all = text::split(first.push('+') + second, '+').map_values(clean);
    text_laws::law_split_around_separator(first, '+', second);
    assert(all =~= a + b);
    law_modifiers_are_read(a);
    law_modifiers_are_read(b);
    law_modifiers_are_read(all);
    lemma_names_concat(a, b, "ctrl"@, "control"@);
    lemma_names_concat(a, b, "shift"@, "shift"@);
    lemma_names_concat(a, b, "alt"@, "alt"@);
}

/// Parts in two lists.
proof fn lemma_names_concat(
    a: Seq<Seq<char>>,
    b: Seq<Seq<char>>,
    one: Seq<char>,
    other: Seq<char>,
)
    ensures
        names(a + b, one, other) <==> names(a, one, other) || names(b, one, other),
{
    let all = a + b;
    if names(a, one, other) {
        let i = choose|i: int| 0 <= i < a.len() && (#[trigger] a[i] == one || a[i] == other);
        assert(all[i] == a[i]);
    }
    if names(b, one, other) {
        let i = choose|i: int| 0 <= i < b.len() && (#[trigger] b[i] == one || b[i] == other);
        assert(all[a.len() + i] == b[i]);
    }
    if names(all, one, other) {
        let i = choose|i: int| 0 <= i < all.len() && (#[trigger] all[i] == one || all[i] == other);
        if i < a.len() {
            assert(a[i] == all[i]);
        } else {
            assert(b[i - a.len()] == all[i]);
        }
    }
}

/// A part of a written hotkey is read without the white space around it and in lower case.
pub proof fn law_parts_are_cleaned(left: Seq<char>, name: Seq<char>, right: Seq<char>)
    requires
        text_laws::all_of(left, CharClass::WhiteSpace),
        text_laws::all_of(right, CharClass::WhiteSpace),
        is_ascii_chars(name),
        name.len() > 0,
        !text::white_space(name.first()),
        !text::white_space(name.last()),
    ensures
        hotkeys::clean_part(left + name + right) == text::ascii_lowered(name),
        hotkeys::clean_part(left + name + right) == hotkeys::clean_part(name),
{
    text_laws::law_trim_leaves_the_core(left, name, right, CharClass::WhiteSpace);
    let none = Seq::<char>::empty();
    text_laws::law_trim_leaves_the_core(none, name, none, CharClass::WhiteSpace);
    assert(none + name + none =~= name);
}

/// A key that is written after the last plus sign is the key of the hotkey, and what stands
/// before decides the modifiers.
pub proof fn law_last_part_is_the_key(before: Seq<char>, part: Seq<char>, key: HotKey)
    requires
        forall|i: int| 0 <= i < part.len() ==> #[trigger] part[i] != '+',
        key_written(hotkeys::clean_part(part), key),
    ensures
        hotkeys::combo_text(before.push('+') + part) == (
            hotkeys::combo_text(before).0,
            hotkeys::combo_text(before).1,
            hotkeys::combo_text(before).2,
            key,
        ),
        hotkeys::combo_text(part) == (false, false, false, key),
{
    let clean = |part: Seq<char>| hotkeys::clean_part(part);
    let a = text::split(before, '+').map_values(clean);
    let all = text::split(before.push('+') + part, '+').map_values(clean);
    let none = (false, false, false, HotKey::Unknown(0));
    text_laws::law_split_around_separator(before, '+', part);
    text_laws::law_split_without_separator(part, '+');
    assert(all =~= a.push(hotkeys::clean_part(part)));
    assert(all.drop_last() =~= a);
    law_keys_are_read(hotkeys::combo_of(a), hotkeys::clean_part(part), key);
    let one = text::split(part, '+').map_values(clean);
    assert(one =~= seq![hotkeys::clean_part(part)]);
    assert(one.drop_last() =~= Seq::empty());
    assert(hotkeys::combo_of(one.drop_last()) == none);
    law_keys_are_read(none, hotkeys::clean_part(part), key);
}

} // verus!
