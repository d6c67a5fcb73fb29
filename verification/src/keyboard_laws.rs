//! Which characters, keys and chords keyboard plans enter.

use crate::screen;
use crate::screen::Desk;
use crate::virtual_keyboard;
use crate::virtual_keyboard::{
    Delay, EnigoKeyboard, Key, KeyboardKind, Modifier, OpModel, SpecialKey, UInputKeyboard,
    VirtualKeyboard,
};
use vstd::prelude::*;

verus! {

/// Whether a character is on a keyboard of the United States: it can be printed and is ASCII, or
/// it is a line feed or a tab.
pub open spec fn on_keyboard(c: char) -> bool {
    ' ' <= c <= '~' || c == '\n' || c == '\t'
}

/// Every character on the keyboard has a key and is entered by it, and no other has one.
pub proof fn law_every_character_on_the_keyboard_has_a_key(c: char)
    ensures
        virtual_keyboard::key_of(c) is Some <==> on_keyboard(c),
        on_keyboard(c) ==> screen::entered(
            virtual_keyboard::key_of(c)->0,
            virtual_keyboard::shifted(c),
        ) == Some(c),
{
}

/// Of a text that is typed on a kernel device every character on the keyboard arrives, in its
/// order and whatever the length of the text, and no other; of one that is typed by a library
/// all arrive.
pub proof fn law_what_arrives(before: Seq<char>, c: char, typed: Seq<char>)
    ensures
        KeyboardKind::Library.arriving(typed) == typed,
        KeyboardKind::Kernel.arriving(Seq::empty()).len() == 0,
        KeyboardKind::Kernel.arriving(before.push(c)) == if on_keyboard(c) {
            KeyboardKind::Kernel.arriving(before).push(c)
        } else {
            KeyboardKind::Kernel.arriving(before)
        },
        (forall|i: int| 0 <= i < typed.len() ==> on_keyboard(#[trigger] typed[i]))
            ==> KeyboardKind::Kernel.arriving(typed) == typed,
    decreases typed.len(),
{
    let has_key = |ch: char| virtual_keyboard::key_of(ch) is Some;
    law_every_character_on_the_keyboard_has_a_key(c);
    before.lemma_filter_push(c, has_key);
    reveal(Seq::filter);
    if typed.len() > 0 {
        let less = typed.drop_last();
        law_what_arrives(before, c, less);
        law_every_character_on_the_keyboard_has_a_key(typed.last());
        if forall|i: int| 0 <= i < typed.len() ==> on_keyboard(#[trigger] typed[i]) {
            assert forall|i: int| 0 <= i < less.len() implies on_keyboard(#[trigger] less[i]) by {
                assert(less[i] == typed[i]);
            }
            assert(on_keyboard(typed[typed.len() - 1]));
            assert(less.push(typed.last()) =~= typed);
        }
    } else {
        assert(typed.filter(has_key) =~= typed);
    }
}

/// The key that each special key is.
pub proof fn law_special_keys(key: SpecialKey)
    ensures
        screen::entered(virtual_keyboard::special_key(key), false) == match key {
            SpecialKey::Enter => Some('\n'),
            SpecialKey::Tab => Some('\t'),
            SpecialKey::Space => Some(' '),
            _ => None,
        },
        virtual_keyboard::special_key(SpecialKey::Backspace) == Key::BackSpace,
        virtual_keyboard::special_key(SpecialKey::Delete) == Key::Delete,
        virtual_keyboard::special_key(SpecialKey::Escape) == Key::Esc,
        virtual_keyboard::special_key(SpecialKey::Left) == Key::Left,
        virtual_keyboard::special_key(SpecialKey::Right) == Key::Right,
        virtual_keyboard::special_key(SpecialKey::Up) == Key::Up,
        virtual_keyboard::special_key(SpecialKey::Down) == Key::Down,
{
}

/// Each modifier is a key of its own.
pub proof fn law_modifiers_are_keys(modifier: Modifier, other: Modifier)
    ensures
        virtual_keyboard::modifier_key(Modifier::Ctrl) == Key::LeftControl,
        virtual_keyboard::modifier_key(Modifier::Shift) == Key::LeftShift,
        virtual_keyboard::modifier_key(Modifier::Alt) == Key::LeftAlt,
        virtual_keyboard::modifier_key(Modifier::Super) == Key::LeftMeta,
        virtual_keyboard::modifier_key(modifier) == virtual_keyboard::modifier_key(other)
            ==> modifier == other,
{
}

/// The clicks of a plan, each with the keys that are held meanwhile.
pub open spec fn clicks(held: Set<Key>, ops: Seq<OpModel>) -> Seq<(Set<Key>, Key)>
    decreases ops.len(),
{
    if ops.len() == 0 {
        Seq::empty()
    } else {
        let before = clicks(held, ops.drop_last());
        match ops.last() {
            OpModel::Click(key) => before.push((screen::held_after(held, ops.drop_last()), key)),
            _ => before,
        }
    }
}

/// A plan that presses and releases only clicks nothing.
proof fn lemma_no_clicks(held: Set<Key>, before: Seq<OpModel>, ops: Seq<OpModel>)
    requires
        forall|i: int| 0 <= i < ops.len() ==> !((#[trigger] ops[i]) is Click),
    ensures
        clicks(held, before + ops) == clicks(held, before),
    decreases ops.len(),
{
    let all = before + ops;
    if ops.len() == 0 {
        assert(all =~= before);
    } else {
        let less = ops.drop_last();
        assert forall|i: int| 0 <= i < less.len() implies !((#[trigger] less[i]) is Click) by {
            assert(less[i] == ops[i]);
        }
        lemma_no_clicks(held, before, less);
        assert(all.drop_last() =~= before + less);
        assert(all.last() == ops[ops.len() - 1]);
    }
}

/// After the first modifiers were pressed, they are held besides what was held before.
proof fn lemma_modifiers_pressed(held: Set<Key>, modifiers: Seq<Modifier>, n: int, key: Key)
    requires
        0 <= n <= modifiers.len(),
    ensures
        screen::held_after(held, virtual_keyboard::press_all(modifiers).take(n)).contains(key)
            <==> held.contains(key) || screen::among(modifiers.take(n), key),
    decreases n,
{
    let all = virtual_keyboard::press_all(modifiers);
    let some = modifiers.take(n);
    if n > 0 {
        let less = modifiers.take(n - 1);
        lemma_modifiers_pressed(held, modifiers, n - 1, key);
        assert(all.take(n).drop_last() =~= all.take(n - 1));
        assert(all.take(n).last() == OpModel::Press(
            virtual_keyboard::modifier_key(modifiers[n - 1]),
        ));
        if screen::among(less, key) {
            let i = choose|i: int|
                0 <= i < less.len() && virtual_keyboard::modifier_key(#[trigger] less[i]) == key;
            assert(some[i] == less[i]);
        }
        if virtual_keyboard::modifier_key(modifiers[n - 1]) == key {
            assert(some[n - 1] == modifiers[n - 1]);
        }
        if screen::among(some, key) {
            let i = choose|i: int|
                0 <= i < some.len() && virtual_keyboard::modifier_key(#[trigger] some[i]) == key;
            if i < n - 1 {
                assert(less[i] == some[i]);
            }
        }
    } else {
        assert(all.take(0) =~= Seq::empty());
    }
}

/// Modifiers, a click, the modifiers again, and no click after it.
proof fn lemma_chord_clicks(
    held: Set<Key>,
    modifiers: Seq<Modifier>,
    key: Key,
    after: Seq<OpModel>,
)
    requires
        forall|i: int| 0 <= i < after.len() ==> !((#[trigger] after[i]) is Click),
    ensures
        ({
            let ops = virtual_keyboard::press_all(modifiers) + seq![OpModel::Click(key)]
                + virtual_keyboard::release_all(modifiers) + after;
            let made = clicks(held, ops);
            &&& made.len() == 1
            &&& made[0].1 == key
            &&& forall|k: Key|
                #[trigger] made[0].0.contains(k) <==> held.contains(k) || screen::among(
                    modifiers,
                    k,
                )
        }),
{
    let down = virtual_keyboard::press_all(modifiers);
    let up = virtual_keyboard::release_all(modifiers);
    let first = down + seq![OpModel::Click(key)];
    let none = Seq::<OpModel>::empty();
    lemma_no_clicks(held, none, down);
    assert(none + down =~= down);
    assert(first.drop_last() =~= down);
    lemma_no_clicks(held, first, up);
    lemma_no_clicks(held, first + up, after);
    assert forall|k: Key| #[trigger] screen::held_after(held, down).contains(k) <==> held.contains(
        k,
    ) || screen::among(modifiers, k) by {
        lemma_modifiers_pressed(held, modifiers, modifiers.len() as int, k);
        assert(down.take(modifiers.len() as int) =~= down);
        assert(modifiers.take(modifiers.len() as int) =~= modifiers);
    }
}

/// A chord clicks one key, that of its character, while just its modifiers are held besides what
/// was held before, whatever their number.
pub proof fn law_chords_click_one_key(held: Set<Key>, modifiers: Seq<Modifier>, ch: char)
    ensures
        on_keyboard(ch) ==> {
            let made = clicks(held, UInputKeyboard::chord_ops(modifiers, ch));
            &&& made.len() == 1
            &&& Some(made[0].1) == virtual_keyboard::key_of(ch)
            &&& forall|k: Key|
                #[trigger] made[0].0.contains(k) <==> held.contains(k) || screen::among(
                    modifiers,
                    k,
                )
        },
        ({
            let made = clicks(held, EnigoKeyboard::chord_ops(modifiers, ch));
            &&& made.len() == 1
            &&& made[0].1 == Key::Unicode(ch)
            &&& forall|k: Key|
                #[trigger] made[0].0.contains(k) <==> held.contains(k) || screen::among(
                    modifiers,
                    k,
                )
        }),
        UInputKeyboard::chord_key(ch) <==> on_keyboard(ch),
        EnigoKeyboard::chord_key(ch),
{
    law_every_character_on_the_keyboard_has_a_key(ch);
    if on_keyboard(ch) {
        lemma_chord_clicks(
            held,
            modifiers,
            virtual_keyboard::key_of(ch)->0,
            seq![OpModel::Sync, OpModel::Pause(Delay::Chord)],
        );
    }
    lemma_chord_clicks(
        held,
        modifiers,
        Key::Unicode(ch),
        seq![OpModel::Pause(Delay::Chord)],
    );
}

/// A word is deleted by one backspace while control is held, which is let go again; a modifier
/// that is pressed is held until it is released.
pub proof fn law_words_are_deleted_with_control(held: Set<Key>, modifier: Modifier)
    ensures
        clicks(held, UInputKeyboard::word_ops()) == seq![
            (held.insert(Key::LeftControl), Key::BackSpace),
        ],
        clicks(held, EnigoKeyboard::word_ops()) == seq![
            (held.insert(Key::LeftControl), Key::BackSpace),
        ],
        !screen::held_after(held, UInputKeyboard::word_ops()).contains(Key::LeftControl),
        !screen::held_after(held, EnigoKeyboard::word_ops()).contains(Key::LeftControl),
        screen::held_after(held, UInputKeyboard::press_ops(modifier)).contains(
            virtual_keyboard::modifier_key(modifier),
        ),
        screen::held_after(held, EnigoKeyboard::press_ops(modifier)).contains(
            virtual_keyboard::modifier_key(modifier),
        ),
        !screen::held_after(held, UInputKeyboard::release_ops(modifier)).contains(
            virtual_keyboard::modifier_key(modifier),
        ),
        !screen::held_after(held, EnigoKeyboard::release_ops(modifier)).contains(
            virtual_keyboard::modifier_key(modifier),
        ),
{
    reveal_with_fuel(clicks, 6);
    reveal_with_fuel(screen::held_after, 6);
    let device = UInputKeyboard::word_ops();
    let library = EnigoKeyboard::word_ops();
    let start = seq![OpModel::Press(Key::LeftControl)];
    assert(start.drop_last() =~= Seq::empty());
    assert(device.drop_last().drop_last().drop_last().drop_last() =~= start);
    assert(library.drop_last().drop_last().drop_last() =~= start);
    assert(clicks(held, device) =~= seq![(held.insert(Key::LeftControl), Key::BackSpace)]);
    assert(clicks(held, library) =~= seq![(held.insert(Key::LeftControl), Key::BackSpace)]);
    assert(UInputKeyboard::press_ops(modifier).drop_last() =~= EnigoKeyboard::press_ops(modifier));
    assert(UInputKeyboard::release_ops(modifier).drop_last() =~= EnigoKeyboard::release_ops(
        modifier,
    ));
}

/// A plan that is made several times has as many operations for each time.
pub proof fn law_repeated_plans(ops: Seq<OpModel>, count: nat)
    ensures
        virtual_keyboard::repeated(ops, count).len() == count * ops.len(),
        forall|i: int, k: int|
            0 <= i < count && 0 <= k < ops.len() ==> #[trigger] virtual_keyboard::repeated(
                ops,
                count,
            )[i * ops.len() + k] == #[trigger] ops[k],
    decreases count,
{
    if count > 0 {
        let less = (count - 1) as nat;
        let n = ops.len();
        law_repeated_plans(ops, less);
        assert(less * n + n == count * n) by (nonlinear_arith)
            requires
                less + 1 == count,
        ;
        let all = virtual_keyboard::repeated(ops, count);
        assert forall|i: int, k: int| 0 <= i < count && 0 <= k < ops.len() implies #[trigger] all[i
            * n + k] == #[trigger] ops[k] by {
            if i < less {
                assert(i * n + k < less * n) by (nonlinear_arith)
                    requires
                        0 <= i < less,
                        0 <= k < n,
                ;
                assert(0 <= i * n) by (nonlinear_arith)
                    requires
                        0 <= i,
                        0 <= n,
                ;
                assert(all[i * n + k] == virtual_keyboard::repeated(ops, less)[i * n + k]);
            } else {
                assert(i == less);
            }
        }
    }
}

/// A special key that is pressed is clicked once, and nothing is held for it; on a kernel device
/// the click takes effect before the pause.
pub proof fn law_special_keys_are_clicked(held: Set<Key>, key: SpecialKey)
    ensures
        clicks(held, UInputKeyboard::key_ops(key)) == seq![
            (held, virtual_keyboard::special_key(key)),
        ],
        clicks(held, EnigoKeyboard::key_ops(key)) == seq![
            (held, virtual_keyboard::special_key(key)),
        ],
        UInputKeyboard::key_ops(key).len() == 3,
        UInputKeyboard::key_ops(key)[1] == OpModel::Sync,
        UInputKeyboard::key_ops(key)[2] is Pause,
        key != SpecialKey::Backspace ==> UInputKeyboard::key_ops(key)[2] == OpModel::Pause(
            Delay::Key,
        ),
        UInputKeyboard::key_ops(SpecialKey::Backspace)[2] == OpModel::Pause(Delay::Backspace),
{
    reveal_with_fuel(clicks, 4);
    reveal_with_fuel(screen::held_after, 2);
    let device = UInputKeyboard::key_ops(key);
    let library = EnigoKeyboard::key_ops(key);
    assert(library.drop_last() =~= Seq::empty());
    assert(device.drop_last().drop_last() =~= library);
    assert(clicks(held, library) =~= seq![(held, virtual_keyboard::special_key(key))]);
    assert(clicks(held, device) =~= seq![(held, virtual_keyboard::special_key(key))]);
}

/// After an operation that failed, typing goes on behind the next pause if that is the pause of
/// a typed character; all operations in between are left out.
pub proof fn law_typing_goes_on_behind_a_pause(ops: Seq<OpModel>, failed: int, pause: int)
    requires
        0 <= failed <= pause < ops.len(),
        ops[pause] is Pause,
        forall|i: int| failed <= i < pause ==> !((#[trigger] ops[i]) is Pause),
    ensures
        ops[pause] == OpModel::Pause(Delay::Character) ==> virtual_keyboard::resumed(ops, failed)
            == Some(pause + 1),
        ops[pause] != OpModel::Pause(Delay::Character) ==> virtual_keyboard::resumed(
            ops,
            failed,
        ) is None,
{
    lemma_next_pause(ops, failed, pause);
}

/// The next pause is found.
proof fn lemma_next_pause(ops: Seq<OpModel>, from: int, pause: int)
    requires
        0 <= from <= pause < ops.len(),
        ops[pause] is Pause,
        forall|i: int| from <= i < pause ==> !((#[trigger] ops[i]) is Pause),
    ensures
        virtual_keyboard::next_pause(ops, from) == pause,
    decreases pause - from,
{
    if from < pause {
        assert(!(ops[from] is Pause));
        lemma_next_pause(ops, from + 1, pause);
    }
}

/// Every text of characters on the keyboard that is typed as a word on a kernel device arrives
/// as it is, with a space after it, whatever its length.
pub proof fn law_words_arrive_whole(desk: Desk, word: Seq<char>)
    requires
        !desk.shift,
        forall|i: int| 0 <= i < word.len() ==> on_keyboard(#[trigger] word[i]),
    ensures
        desk.after(virtual_keyboard::word_typed::<UInputKeyboard>(word)).screen == desk.screen
            + word + seq![' '],
{
    law_what_arrives(Seq::empty(), ' ', word);
    screen::law_typed_word_arrives(desk, word);
}

} // verus!
