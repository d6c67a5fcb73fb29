//! What keyboard plans put on the screen.
//!
//! The screen is followed for plans that type and take back text: of the modifiers only
//! shift is followed.

use crate::virtual_keyboard;
use crate::virtual_keyboard::{
    EnigoKeyboard, Key, Modifier, OpModel, SpecialKey, UInputKeyboard, VirtualKeyboard,
};
use vstd::prelude::*;

verus! {

/// The text before the cursor, and whether shift is held.
#[verifier::ext_equal]
pub struct Desk {
    pub screen: Seq<char>,
    pub shift: bool,
}

/// The character that a click of a key enters on a keyboard of the United States.
pub open spec fn entered(key: Key, shift: bool) -> Option<char> {
    match key {
        Key::Letter(c) => Some(
            if shift {
                ((c as u32) - 0x20) as char
            } else {
                c
            },
        ),
        Key::Digit(c) => if !shift {
            Some(c)
        } else {
            match c {
                '0' => Some(')'),
                '1' => Some('!'),
                '2' => Some('@'),
                '3' => Some('#'),
                '4' => Some('$'),
                '5' => Some('%'),
                '6' => Some('^'),
                '7' => Some('&'),
                '8' => Some('*'),
                '9' => Some('('),
                _ => None,
            }
        },
        Key::Unicode(c) => Some(c),
        Key::Space => Some(' '),
        Key::Minus => Some(if shift { '_' } else { '-' }),
        Key::Equal => Some(if shift { '+' } else { '=' }),
        Key::LeftBrace => Some(if shift { '{' } else { '[' }),
        Key::RightBrace => Some(if shift { '}' } else { ']' }),
        Key::BackSlash => Some(if shift { '|' } else { '\\' }),
        Key::SemiColon => Some(if shift { ':' } else { ';' }),
        Key::Apostrophe => Some(if shift { '"' } else { '\'' }),
        Key::Comma => Some(if shift { '<' } else { ',' }),
        Key::Dot => Some(if shift { '>' } else { '.' }),
        Key::Slash => Some(if shift { '?' } else { '/' }),
        Key::Grave => Some(if shift { '~' } else { '`' }),
        Key::Enter => Some('\n'),
        Key::Tab => Some('\t'),
        _ => None,
    }
}

impl Desk {
    /// After one operation of a plan.
    pub open spec fn after_op(self, op: OpModel) -> Desk {
        match op {
            OpModel::Press(Key::LeftShift) => Desk { shift: true, ..self },
            OpModel::Release(Key::LeftShift) => Desk { shift: false, ..self },
            OpModel::Click(Key::BackSpace) => Desk { screen: taken_back(self.screen, 1), ..self },
            OpModel::Click(key) => match entered(key, self.shift) {
                Some(c) => Desk { screen: self.screen.push(c), ..self },
                None => self,
            },
            OpModel::Text(typed) => Desk { screen: self.screen + typed, ..self },
            _ => self,
        }
    }

    /// After a plan.
    pub open spec fn after(self, ops: Seq<OpModel>) -> Desk
        decreases ops.len(),
    {
        if ops.len() == 0 {
            self
        } else {
            self.after(ops.drop_last()).after_op(ops.last())
        }
    }
}

/// A text without its last characters, as many as it has.
pub open spec fn taken_back(screen: Seq<char>, count: nat) -> Seq<char> {
    if count <= screen.len() {
        screen.take(screen.len() - count)
    } else {
        Seq::empty()
    }
}

/// One plan after the other.
proof fn lemma_after_concat(desk: Desk, first: Seq<OpModel>, second: Seq<OpModel>)
    ensures
        desk.after(first + second) == desk.after(first).after(second),
    decreases second.len(),
{
    if second.len() == 0 {
        assert(first + second =~= first);
    } else {
        lemma_after_concat(desk, first, second.drop_last());
        assert((first + second).drop_last() =~= first + second.drop_last());
        assert((first + second).last() == second.last());
    }
}

/// Every character with a key is entered by that key, with shift where it needs shift.
pub proof fn law_keys_enter_their_character(ch: char)
    requires
        virtual_keyboard::key_of(ch) is Some,
    ensures
        entered(virtual_keyboard::key_of(ch)->0, virtual_keyboard::shifted(ch)) == Some(ch),
{
}

/// No two characters are entered by the same key with the same shift.
pub proof fn law_keys_tell_characters_apart(a: char, b: char)
    requires
        virtual_keyboard::key_of(a) is Some,
        virtual_keyboard::key_of(a) == virtual_keyboard::key_of(b),
        virtual_keyboard::shifted(a) == virtual_keyboard::shifted(b),
    ensures
        a == b,
{
    law_keys_enter_their_character(a);
    law_keys_enter_their_character(b);
}

/// A single character is typed.
proof fn lemma_char_arrives(desk: Desk, ch: char)
    requires
        !desk.shift,
    ensures
        desk.after(virtual_keyboard::char_ops(ch)) == if virtual_keyboard::key_of(ch) is Some {
            Desk { screen: desk.screen.push(ch), shift: false }
        } else {
            desk
        },
{
    let ops = virtual_keyboard::char_ops(ch);
    reveal_with_fuel(Desk::after, 6);
    if virtual_keyboard::key_of(ch) is Some {
        law_keys_enter_their_character(ch);
        let key = virtual_keyboard::key_of(ch)->0;
        assert(key != Key::BackSpace);
        if virtual_keyboard::shifted(ch) {
            assert(ops.drop_last().drop_last().drop_last().drop_last() =~= seq![
                OpModel::Press(Key::LeftShift),
            ]);
        } else {
            assert(ops.drop_last().drop_last() =~= seq![OpModel::Click(key)]);
        }
    }
}

/// A text that is typed on a kernel input device arrives on the screen, without the
/// characters that have no key.
pub proof fn law_typed_text_arrives(desk: Desk, typed: Seq<char>)
    requires
        !desk.shift,
    ensures
        desk.after(UInputKeyboard::text_ops(typed)) == (Desk {
            screen: desk.screen + virtual_keyboard::typable(typed),
            shift: false,
        }),
    decreases typed.len(),
{
    let has_key = |c: char| virtual_keyboard::key_of(c) is Some;
    reveal(Seq::filter);
    if typed.len() == 0 {
        assert(desk.screen + virtual_keyboard::typable(typed) =~= desk.screen);
    } else {
        let before = typed.drop_last();
        law_typed_text_arrives(desk, before);
        let shown = desk.after(virtual_keyboard::uinput_text(before));
        lemma_after_concat(
            desk,
            virtual_keyboard::uinput_text(before),
            virtual_keyboard::char_ops(typed.last()),
        );
        lemma_char_arrives(shown, typed.last());
        assert(desk.screen + virtual_keyboard::typable(typed) =~= if has_key(typed.last()) {
            (desk.screen + virtual_keyboard::typable(before)).push(typed.last())
        } else {
            desk.screen + virtual_keyboard::typable(before)
        });
    }
}

/// Backspaces take back characters, as many as there are.
proof fn lemma_backspaces(desk: Desk, back: Seq<OpModel>, count: nat)
    requires
        forall|d: Desk| #[trigger]
            d.after(back) == (Desk { screen: taken_back(d.screen, 1), shift: d.shift }),
    ensures
        desk.after(virtual_keyboard::repeated(back, count)) == (Desk {
            screen: taken_back(desk.screen, count),
            shift: desk.shift,
        }),
    decreases count,
{
    if count == 0 {
        assert(taken_back(desk.screen, 0) =~= desk.screen);
    } else {
        let less = (count - 1) as nat;
        lemma_backspaces(desk, back, less);
        lemma_after_concat(desk, virtual_keyboard::repeated(back, less), back);
        let shown = desk.after(virtual_keyboard::repeated(back, less));
        assert(shown.after(back) == (Desk {
            screen: taken_back(shown.screen, 1),
            shift: shown.shift,
        }));
        assert(taken_back(taken_back(desk.screen, less), 1) =~= taken_back(desk.screen, count));
    }
}

/// A backspace of a kernel input device.
proof fn lemma_device_backspace(desk: Desk)
    ensures
        desk.after(UInputKeyboard::key_ops(SpecialKey::Backspace)) == (Desk {
            screen: taken_back(desk.screen, 1),
            shift: desk.shift,
        }),
{
    let back = UInputKeyboard::key_ops(SpecialKey::Backspace);
    reveal_with_fuel(Desk::after, 4);
    assert(back.drop_last().drop_last() =~= seq![OpModel::Click(Key::BackSpace)]);
}

/// A space of a kernel input device.
proof fn lemma_device_space(desk: Desk)
    ensures
        desk.after(UInputKeyboard::key_ops(SpecialKey::Space)) == (Desk {
            screen: desk.screen.push(' '),
            shift: desk.shift,
        }),
{
    let space = UInputKeyboard::key_ops(SpecialKey::Space);
    reveal_with_fuel(Desk::after, 4);
    assert(space.drop_last().drop_last() =~= seq![OpModel::Click(Key::Space)]);
}

/// A word that is typed on a kernel input device arrives with a space after it, without the
/// characters that have no key.
pub proof fn law_typed_word_arrives(desk: Desk, word: Seq<char>)
    requires
        !desk.shift,
    ensures
        desk.after(virtual_keyboard::word_typed::<UInputKeyboard>(word)) == (Desk {
            screen: desk.screen + virtual_keyboard::typable(word) + seq![' '],
            shift: false,
        }),
{
    law_typed_text_arrives(desk, word);
    let longer = desk.after(UInputKeyboard::text_ops(word));
    lemma_device_space(longer);
    lemma_after_concat(
        desk,
        UInputKeyboard::text_ops(word),
        UInputKeyboard::key_ops(SpecialKey::Space),
    );
    assert(longer.screen.push(' ') =~= desk.screen + virtual_keyboard::typable(word) + seq![' ']);
}

/// To retype on a kernel input device takes back characters and puts the text and a space in
/// their place, without the characters that have no key.
pub proof fn law_retyped_text_replaces(desk: Desk, backspaces: nat, typed: Seq<char>)
    requires
        !desk.shift,
    ensures
        desk.after(virtual_keyboard::retyped::<UInputKeyboard>(backspaces, typed)) == (Desk {
            screen: taken_back(desk.screen, backspaces) + virtual_keyboard::typable(typed)
                + seq![' '],
            shift: false,
        }),
{
    let back = UInputKeyboard::key_ops(SpecialKey::Backspace);
    assert forall|d: Desk| #[trigger]
        d.after(back) == (Desk { screen: taken_back(d.screen, 1), shift: d.shift }) by {
        lemma_device_backspace(d);
    }
    lemma_backspaces(desk, back, backspaces);
    law_typed_word_arrives(desk.after(virtual_keyboard::repeated(back, backspaces)), typed);
    lemma_after_concat(
        desk,
        virtual_keyboard::repeated(back, backspaces),
        virtual_keyboard::word_typed::<UInputKeyboard>(typed),
    );
}

/// A word that is typed by an input library that enters text by itself arrives as a whole,
/// with a space after it.
pub proof fn law_library_types_any_word(desk: Desk, word: Seq<char>)
    ensures
        desk.after(virtual_keyboard::word_typed::<EnigoKeyboard>(word)) == (Desk {
            screen: desk.screen + word + seq![' '],
            shift: desk.shift,
        }),
{
    let ops = virtual_keyboard::word_typed::<EnigoKeyboard>(word);
    reveal_with_fuel(Desk::after, 3);
    assert(ops =~= seq![OpModel::Text(word), OpModel::Click(Key::Space)]);
    assert(ops.drop_last() =~= seq![OpModel::Text(word)]);
    assert((desk.screen + word).push(' ') =~= desk.screen + word + seq![' ']);
}

/// To retype by an input library that enters text by itself does the same for any text.
pub proof fn law_library_retypes_any_text(desk: Desk, backspaces: nat, typed: Seq<char>)
    ensures
        desk.after(virtual_keyboard::retyped::<EnigoKeyboard>(backspaces, typed)) == (Desk {
            screen: taken_back(desk.screen, backspaces) + typed + seq![' '],
            shift: desk.shift,
        }),
{
    let back = EnigoKeyboard::key_ops(SpecialKey::Backspace);
    let word = virtual_keyboard::word_typed::<EnigoKeyboard>(typed);
    assert forall|d: Desk| #[trigger]
        d.after(back) == (Desk { screen: taken_back(d.screen, 1), shift: d.shift }) by {
        reveal_with_fuel(Desk::after, 2);
        assert(back.drop_last() =~= Seq::empty());
    }
    lemma_backspaces(desk, back, backspaces);
    law_library_types_any_word(desk.after(virtual_keyboard::repeated(back, backspaces)), typed);
    lemma_after_concat(desk, virtual_keyboard::repeated(back, backspaces), word);
}

/// The keys that a plan leaves held, of those held before.
pub open spec fn held_after(held: Set<Key>, ops: Seq<OpModel>) -> Set<Key>
    decreases ops.len(),
{
    if ops.len() == 0 {
        held
    } else {
        let before = held_after(held, ops.drop_last());
        match ops.last() {
            OpModel::Press(key) => before.insert(key),
            OpModel::Release(key) => before.remove(key),
            _ => before,
        }
    }
}

/// One plan after the other.
proof fn lemma_held_concat(held: Set<Key>, first: Seq<OpModel>, second: Seq<OpModel>)
    ensures
        held_after(held, first + second) == held_after(held_after(held, first), second),
    decreases second.len(),
{
    if second.len() == 0 {
        assert(first + second =~= first);
    } else {
        lemma_held_concat(held, first, second.drop_last());
        assert((first + second).drop_last() =~= first + second.drop_last());
    }
}

/// Whether a key is that of one of the modifiers.
pub open spec fn among(modifiers: Seq<Modifier>, key: Key) -> bool {
    exists|i: int|
        0 <= i < modifiers.len() && virtual_keyboard::modifier_key(#[trigger] modifiers[i]) == key
}

/// The first modifiers are pressed.
proof fn lemma_pressed(held: Set<Key>, modifiers: Seq<Modifier>, n: int, key: Key)
    requires
        0 <= n <= modifiers.len(),
        held_after(held, virtual_keyboard::press_all(modifiers).take(n)).contains(key),
    ensures
        held.contains(key) || among(modifiers, key),
    decreases n,
{
    let all = virtual_keyboard::press_all(modifiers);
    if n > 0 {
        assert(all.take(n).drop_last() =~= all.take(n - 1));
        let last = virtual_keyboard::modifier_key(modifiers[n - 1]);
        assert(all.take(n).last() == OpModel::Press(last));
        assert(held_after(held, all.take(n)) == held_after(held, all.take(n - 1)).insert(last));
        if key == last {
            assert(among(modifiers, key));
        } else {
            lemma_pressed(held, modifiers, n - 1, key);
        }
    }
}

/// The last modifiers are released.
proof fn lemma_released(held: Set<Key>, modifiers: Seq<Modifier>, n: int, key: Key)
    requires
        0 <= n <= modifiers.len(),
        held_after(held, virtual_keyboard::release_all(modifiers).take(n)).contains(key),
    ensures
        held.contains(key),
        forall|i: int|
            modifiers.len() - n <= i < modifiers.len() ==> virtual_keyboard::modifier_key(
                #[trigger] modifiers[i],
            ) != key,
    decreases n,
{
    let all = virtual_keyboard::release_all(modifiers);
    if n > 0 {
        assert(all.take(n).drop_last() =~= all.take(n - 1));
        let last = virtual_keyboard::modifier_key(modifiers[modifiers.len() - n]);
        assert(all.take(n).last() == OpModel::Release(last));
        assert(held_after(held, all.take(n)) == held_after(held, all.take(n - 1)).remove(last));
        lemma_released(held, modifiers, n - 1, key);
    }
}

/// Modifiers that are pressed and released are not held any more.
proof fn lemma_let_go(held: Set<Key>, modifiers: Seq<Modifier>, key: Key, after: Seq<OpModel>)
    requires
        after == seq![OpModel::Sync, OpModel::Pause(virtual_keyboard::Delay::Chord)] || after
            == seq![OpModel::Pause(virtual_keyboard::Delay::Chord)],
    ensures
        held_after(
            held,
            virtual_keyboard::press_all(modifiers) + seq![OpModel::Click(key)]
                + virtual_keyboard::release_all(modifiers) + after,
        ).subset_of(held),
{
    let down = virtual_keyboard::press_all(modifiers);
    let click = seq![OpModel::Click(key)];
    let up = virtual_keyboard::release_all(modifiers);
    let pressed = held_after(held, down);
    let last = held_after(pressed, up);
    lemma_held_concat(held, down + click + up, after);
    lemma_held_concat(held, down + click, up);
    lemma_held_concat(held, down, click);
    assert(held_after(pressed, click) == pressed) by {
        reveal_with_fuel(held_after, 2);
        assert(click.drop_last() =~= Seq::empty());
    }
    assert(held_after(last, after) == last) by {
        reveal_with_fuel(held_after, 3);
        if after.len() == 1 {
            assert(after.drop_last() =~= Seq::empty());
        } else {
            assert(after.drop_last() =~= seq![OpModel::Sync]);
            assert(after.drop_last().drop_last() =~= Seq::empty());
        }
    }
    assert forall|k: Key| last.contains(k) implies held.contains(k) by {
        assert(up.take(modifiers.len() as int) =~= up);
        lemma_released(pressed, modifiers, modifiers.len() as int, k);
        assert(down.take(modifiers.len() as int) =~= down);
        lemma_pressed(held, modifiers, modifiers.len() as int, k);
    }
}

/// A chord whose character has a key leaves no key held that was not held before.
pub proof fn law_chords_let_go(held: Set<Key>, modifiers: Seq<Modifier>, ch: char)
    ensures
        UInputKeyboard::chord_key(ch) ==> held_after(
            held,
            UInputKeyboard::chord_ops(modifiers, ch),
        ).subset_of(held),
        held_after(held, EnigoKeyboard::chord_ops(modifiers, ch)).subset_of(held),
{
    let pause = OpModel::Pause(virtual_keyboard::Delay::Chord);
    if UInputKeyboard::chord_key(ch) {
        lemma_let_go(
            held,
            modifiers,
            virtual_keyboard::key_of(ch)->0,
            seq![OpModel::Sync, pause],
        );
    }
    lemma_let_go(held, modifiers, virtual_keyboard::layout_key(ch), seq![pause]);
}

} // verus!
