//! Keyboard input as plans: which keys go down and up, in which order, with which
//! pauses. The device that carries a plan out is outside of this library; it takes the
//! operations of a plan one by one, and `resume_after` says what follows one that fails.

use crate::text;
use crate::text::{char_list, to_ascii_lower};
use vstd::prelude::*;

verus! {

/// Special keys that can be pressed.
#[derive(Debug, Clone, Copy, PartialEq, Eq, Structural)]
pub enum SpecialKey {
    Enter,
    Backspace,
    Delete,
    Tab,
    Space,
    Escape,
    Left,
    Right,
    Up,
    Down,
}

/// Modifier keys of key chords.
#[derive(Debug, Clone, Copy, PartialEq, Eq, Structural)]
pub enum Modifier {
    Ctrl,
    Shift,
    Alt,
    Super,
}

/// A key of the keyboard.
#[derive(Debug, Clone, Copy, PartialEq, Eq, Structural)]
pub enum Key {
    /// A letter key, named by its small letter.
    Letter(char),
    /// A key of the upper row, named by its digit.
    Digit(char),
    /// The key that a layout has for a character.
    Unicode(char),
    Space,
    Minus,
    Equal,
    LeftBrace,
    RightBrace,
    BackSlash,
    SemiColon,
    Apostrophe,
    Comma,
    Dot,
    Slash,
    Grave,
    Enter,
    Tab,
    BackSpace,
    Delete,
    Esc,
    Left,
    Right,
    Up,
    Down,
    LeftControl,
    LeftShift,
    LeftAlt,
    LeftMeta,
}

/// Why keyboard input is not possible.
#[derive(Debug, Clone, Copy, PartialEq, Eq, Structural)]
pub enum KeyboardError {
    /// No key of the keyboard has the character.
    UnsupportedCharacter(char),
}

/// What a pause follows.
#[derive(Debug, Clone, Copy, PartialEq, Eq, Structural)]
pub enum Delay {
    /// A typed character.
    Character,
    /// A special key other than backspace.
    Key,
    /// A backspace.
    Backspace,
    /// A deleted word.
    Word,
    /// A chord.
    Chord,
}

/// The lengths of the pauses, in microseconds.
#[derive(Debug, Clone, Copy, PartialEq, Eq, Structural)]
pub struct KeyboardTiming {
    pub char_delay: u64,
    pub key_delay: u64,
    pub backspace_delay: u64,
    pub delete_word_delay: u64,
    pub chord_delay: u64,
}

impl Default for KeyboardTiming {
    fn default() -> (r: Self)
        ensures
            r == (KeyboardTiming {
                char_delay: 500,
                key_delay: 500,
                backspace_delay: 15_000,
                delete_word_delay: 10_000,
                chord_delay: 5_000,
            }),
    {
        KeyboardTiming {
            char_delay: 500,
            key_delay: 500,
            backspace_delay: 15_000,
            delete_word_delay: 10_000,
            chord_delay: 5_000,
        }
    }
}

impl KeyboardTiming {
    /// The length of a pause, in microseconds.
    pub fn micros(&self, delay: Delay) -> (r: u64)
        ensures
            r == match delay {
                Delay::Character => self.char_delay,
                Delay::Key => self.key_delay,
                Delay::Backspace => self.backspace_delay,
                Delay::Word => self.delete_word_delay,
                Delay::Chord => self.chord_delay,
            },
    {
        match delay {
            Delay::Character => self.char_delay,
            Delay::Key => self.key_delay,
            Delay::Backspace => self.backspace_delay,
            Delay::Word => self.delete_word_delay,
            Delay::Chord => self.chord_delay,
        }
    }
}

/// An operation of a keyboard plan.
#[derive(Debug, PartialEq, Eq)]
pub enum KeyOp {
    /// A key goes down.
    Press(Key),
    /// A key goes up.
    Release(Key),
    /// A key goes down and up.
    Click(Key),
    /// A whole text is entered.
    Text(String),
    /// The operations so far take effect.
    Sync,
    /// Nothing happens for a while.
    Pause(Delay),
}

/// What an operation holds.
pub enum OpModel {
    Press(Key),
    Release(Key),
    Click(Key),
    Text(Seq<char>),
    Sync,
    Pause(Delay),
}

impl View for KeyOp {
    type V = OpModel;

    open spec fn view(&self) -> OpModel {
        match self {
            KeyOp::Press(key) => OpModel::Press(*key),
            KeyOp::Release(key) => OpModel::Release(*key),
            KeyOp::Click(key) => OpModel::Click(*key),
            KeyOp::Text(typed) => OpModel::Text(typed@),
            KeyOp::Sync => OpModel::Sync,
            KeyOp::Pause(delay) => OpModel::Pause(*delay),
        }
    }
}

/// The views of a plan.
pub open spec fn op_views(ops: Seq<KeyOp>) -> Seq<OpModel> {
    ops.map_values(|op: KeyOp| op@)
}

/// A sequence repeated `count` times.
pub open spec fn repeated(ops: Seq<OpModel>, count: nat) -> Seq<OpModel>
    decreases count,
{
    if count == 0 {
        Seq::empty()
    } else {
        repeated(ops, (count - 1) as nat) + ops
    }
}

/// The key that a keyboard of the United States has for a character.
pub open spec fn key_of(ch: char) -> Option<Key> {
    let low = text::ascii_lower(ch);
    if 'a' <= low <= 'z' {
        Some(Key::Letter(low))
    } else if '0' <= low <= '9' {
        Some(Key::Digit(low))
    } else {
        match low {
            ')' => Some(Key::Digit('0')),
            '!' => Some(Key::Digit('1')),
            '@' => Some(Key::Digit('2')),
            '#' => Some(Key::Digit('3')),
            '$' => Some(Key::Digit('4')),
            '%' => Some(Key::Digit('5')),
            '^' => Some(Key::Digit('6')),
            '&' => Some(Key::Digit('7')),
            '*' => Some(Key::Digit('8')),
            '(' => Some(Key::Digit('9')),
            ' ' => Some(Key::Space),
            '-' | '_' => Some(Key::Minus),
            '=' | '+' => Some(Key::Equal),
            '[' | '{' => Some(Key::LeftBrace),
            ']' | '}' => Some(Key::RightBrace),
            '\\' | '|' => Some(Key::BackSlash),
            ';' | ':' => Some(Key::SemiColon),
            '\'' | '"' => Some(Key::Apostrophe),
            ',' | '<' => Some(Key::Comma),
            '.' | '>' => Some(Key::Dot),
            '/' | '?' => Some(Key::Slash),
            '`' | '~' => Some(Key::Grave),
            '\n' => Some(Key::Enter),
            '\t' => Some(Key::Tab),
            _ => None,
        }
    }
}

/// Whether shift is held while the key of a character is clicked.
pub open spec fn shifted(ch: char) -> bool {
    'A' <= ch <= 'Z' || match ch {
        '!' | '@' | '#' | '$' | '%' | '^' | '&' | '*' | '(' | ')' | '_' | '+' | '{' | '}' | '|'
        | ':' | '"' | '<' | '>' | '?' | '~' => true,
        _ => false,
    }
}

/// The key of a special key.
pub open spec fn special_key(key: SpecialKey) -> Key {
    match key {
        SpecialKey::Enter => Key::Enter,
        SpecialKey::Backspace => Key::BackSpace,
        SpecialKey::Delete => Key::Delete,
        SpecialKey::Tab => Key::Tab,
        SpecialKey::Space => Key::Space,
        SpecialKey::Escape => Key::Esc,
        SpecialKey::Left => Key::Left,
        SpecialKey::Right => Key::Right,
        SpecialKey::Up => Key::Up,
        SpecialKey::Down => Key::Down,
    }
}

/// The key of a modifier.
pub open spec fn modifier_key(modifier: Modifier) -> Key {
    match modifier {
        Modifier::Ctrl => Key::LeftControl,
        Modifier::Shift => Key::LeftShift,
        Modifier::Alt => Key::LeftAlt,
        Modifier::Super => Key::LeftMeta,
    }
}

/// The modifiers go down in order.
pub open spec fn press_all(modifiers: Seq<Modifier>) -> Seq<OpModel> {
    modifiers.map_values(|m: Modifier| OpModel::Press(modifier_key(m)))
}

/// The modifiers go up in reverse order.
pub open spec fn release_all(modifiers: Seq<Modifier>) -> Seq<OpModel> {
    Seq::new(
        modifiers.len(),
        |i: int| OpModel::Release(modifier_key(modifiers[modifiers.len() - 1 - i])),
    )
}

/// The key that a keyboard of the United States has for a character.
pub fn char_to_key(ch: char) -> (r: Result<Key, KeyboardError>)
    ensures
        r == match key_of(ch) {
            Some(key) => Ok(key),
            None => Err(KeyboardError::UnsupportedCharacter(ch)),
        },
{
    let low = to_ascii_lower(ch);
    if 'a' <= low && low <= 'z' {
        return Ok(Key::Letter(low));
    }
    if '0' <= low && low <= '9' {
        return Ok(Key::Digit(low));
    }
    let key = match low {
        ')' => Key::Digit('0'),
        '!' => Key::Digit('1'),
        '@' => Key::Digit('2'),
        '#' => Key::Digit('3'),
        '$' => Key::Digit('4'),
        '%' => Key::Digit('5'),
        '^' => Key::Digit('6'),
        '&' => Key::Digit('7'),
        '*' => Key::Digit('8'),
        '(' => Key::Digit('9'),
        ' ' => Key::Space,
        '-' | '_' => Key::Minus,
        '=' | '+' => Key::Equal,
        '[' | '{' => Key::LeftBrace,
        ']' | '}' => Key::RightBrace,
        '\\' | '|' => Key::BackSlash,
        ';' | ':' => Key::SemiColon,
        '\'' | '"' => Key::Apostrophe,
        ',' | '<' => Key::Comma,
        '.' | '>' => Key::Dot,
        '/' | '?' => Key::Slash,
        '`' | '~' => Key::Grave,
        '\n' => Key::Enter,
        '\t' => Key::Tab,
        _ => return Err(KeyboardError::UnsupportedCharacter(ch)),
    };
    Ok(key)
}

/// Whether shift is held while the key of a character is clicked.
pub fn needs_shift(ch: char) -> (r: bool)
    ensures
        r == shifted(ch),
{
    if 'A' <= ch && ch <= 'Z' {
        return true;
    }
    match ch {
        '!' | '@' | '#' | '$' | '%' | '^' | '&' | '*' | '(' | ')' | '_' | '+' | '{' | '}' | '|'
        | ':' | '"' | '<' | '>' | '?' | '~' => true,
        _ => false,
    }
}

/// The key of a special key.
pub fn special_to_key(key: SpecialKey) -> (r: Key)
    ensures
        r == special_key(key),
{
    match key {
        SpecialKey::Enter => Key::Enter,
        SpecialKey::Backspace => Key::BackSpace,
        SpecialKey::Delete => Key::Delete,
        SpecialKey::Tab => Key::Tab,
        SpecialKey::Space => Key::Space,
        SpecialKey::Escape => Key::Esc,
        SpecialKey::Left => Key::Left,
        SpecialKey::Right => Key::Right,
        SpecialKey::Up => Key::Up,
        SpecialKey::Down => Key::Down,
    }
}

/// The key of a modifier.
pub fn modifier_to_key(modifier: Modifier) -> (r: Key)
    ensures
        r == modifier_key(modifier),
{
    match modifier {
        Modifier::Ctrl => Key::LeftControl,
        Modifier::Shift => Key::LeftShift,
        Modifier::Alt => Key::LeftAlt,
        Modifier::Super => Key::LeftMeta,
    }
}

/// A keyboard that input is planned for.
pub trait VirtualKeyboard: Sized {
    /// The operations planned so far.
    spec fn plan(&self) -> Seq<OpModel>;

    /// The operations that enter a text.
    spec fn text_ops(typed: Seq<char>) -> Seq<OpModel>;

    /// The operations that press and release a special key.
    spec fn key_ops(key: SpecialKey) -> Seq<OpModel>;

    /// The operations that delete one word.
    spec fn word_ops() -> Seq<OpModel>;

    /// The operations that hold a modifier down.
    spec fn press_ops(modifier: Modifier) -> Seq<OpModel>;

    /// The operations that let a modifier go.
    spec fn release_ops(modifier: Modifier) -> Seq<OpModel>;

    /// The operations of a chord. Where the character has no key, those before it.
    spec fn chord_ops(modifiers: Seq<Modifier>, ch: char) -> Seq<OpModel>;

    /// Whether the keyboard has a key for the character of a chord.
    spec fn chord_key(ch: char) -> bool;

    /// Types text into the focused application.
    fn type_text(&mut self, typed: &str) -> (r: Result<(), KeyboardError>)
        ensures
            r is Ok,
            final(self).plan() == old(self).plan() + Self::text_ops(typed@),
    ;

    /// Presses and releases a special key.
    fn press_key(&mut self, key: SpecialKey) -> (r: Result<(), KeyboardError>)
        ensures
            r is Ok,
            final(self).plan() == old(self).plan() + Self::key_ops(key),
    ;

    /// Deletes words with control and backspace.
    fn delete_words(&mut self, count: usize) -> (r: Result<(), KeyboardError>)
        ensures
            r is Ok,
            final(self).plan() == old(self).plan() + repeated(Self::word_ops(), count as nat),
    ;

    /// Holds a modifier down.
    fn press_modifier(&mut self, modifier: Modifier) -> (r: Result<(), KeyboardError>)
        ensures
            r is Ok,
            final(self).plan() == old(self).plan() + Self::press_ops(modifier),
    ;

    /// Lets a modifier go.
    fn release_modifier(&mut self, modifier: Modifier) -> (r: Result<(), KeyboardError>)
        ensures
            r is Ok,
            final(self).plan() == old(self).plan() + Self::release_ops(modifier),
    ;

    /// Presses the modifiers, clicks the key of the character and releases them.
    fn send_chord(&mut self, modifiers: &[Modifier], ch: char) -> (r: Result<(), KeyboardError>)
        ensures
            r == if Self::chord_key(ch) {
                Ok(())
            } else {
                Err(KeyboardError::UnsupportedCharacter(ch))
            },
            final(self).plan() == old(self).plan() + Self::chord_ops(modifiers@, ch),
    ;
}

/// The operations that type one character on a kernel input device.
pub open spec fn char_ops(ch: char) -> Seq<OpModel> {
    match key_of(ch) {
        Some(key) => if shifted(ch) {
            seq![
                OpModel::Press(Key::LeftShift),
                OpModel::Click(key),
                OpModel::Release(Key::LeftShift),
                OpModel::Sync,
                OpModel::Pause(Delay::Character),
            ]
        } else {
            seq![OpModel::Click(key), OpModel::Sync, OpModel::Pause(Delay::Character)]
        },
        None => Seq::empty(),
    }
}

/// The operations that type a text on a kernel input device. Characters without a key are
/// left out.
pub open spec fn uinput_text(typed: Seq<char>) -> Seq<OpModel>
    decreases typed.len(),
{
    if typed.len() == 0 {
        Seq::empty()
    } else {
        uinput_text(typed.drop_last()) + char_ops(typed.last())
    }
}

/// The characters of a text that have a key.
pub open spec fn typable(typed: Seq<char>) -> Seq<char> {
    typed.filter(|c: char| key_of(c) is Some)
}

/// The kinds of keyboards that input is planned for.
#[derive(Debug, Clone, Copy, PartialEq, Eq, Structural)]
pub enum KeyboardKind {
    /// A kernel input device, which leaves out characters without a key.
    Kernel,
    /// An input library that enters any text.
    Library,
}

impl KeyboardKind {
    /// What arrives of a text that is typed.
    pub open spec fn arriving(self, typed: Seq<char>) -> Seq<char> {
        match self {
            KeyboardKind::Kernel => typable(typed),
            KeyboardKind::Library => typed,
        }
    }

    /// The number of characters that arrive of a text that is typed.
    pub fn arriving_len(&self, typed: &str) -> (r: usize)
        ensures
            r == self.arriving(typed@).len(),
    {
        let list = char_list(typed);
        match self {
            KeyboardKind::Library => list.len(),
            KeyboardKind::Kernel => {
                let ghost has_key = |c: char| key_of(c) is Some;
                let mut count: usize = 0;
                let mut i: usize = 0;
                proof {
                    reveal(Seq::filter);
                    assert(list@.take(0).filter(has_key).len() == 0);
                }
                while i < list.len()
                    invariant
                        i <= list.len(),
                        count <= i,
                        has_key == (|c: char| key_of(c) is Some),
                        count == list@.take(i as int).filter(has_key).len(),
                    decreases list.len() - i,
                {
                    proof {
                        assert(list@.take(i + 1) =~= list@.take(i as int).push(list@[i as int]));
                        list@.take(i as int).lemma_filter_push(list@[i as int], has_key);
                    }
                    if char_to_key(list[i]).is_ok() {
                        count += 1;
                    }
                    i += 1;
                }
                assert(list@.take(list@.len() as int) =~= list@);
                count
            },
        }
    }
}

/// Plans for a kernel input device.
#[derive(Debug)]
pub struct UInputKeyboard {
    pub ops: Vec<KeyOp>,
}

impl UInputKeyboard {
    /// A keyboard with an empty plan.
    pub fn new() -> (r: Self)
        ensures
            r.plan() == Seq::<OpModel>::empty(),
    {
        let r = UInputKeyboard { ops: Vec::new() };
        assert(r.plan() =~= Seq::<OpModel>::empty());
        r
    }

    /// Types one character, if it has a key.
    fn type_char(&mut self, ch: char) -> (r: Result<(), KeyboardError>)
        ensures
            r is Ok == key_of(ch) is Some,
            r is Err ==> r == Err::<(), _>(KeyboardError::UnsupportedCharacter(ch)),
            final(self).plan() == old(self).plan() + char_ops(ch),
    {
        let key = match char_to_key(ch) {
            Ok(key) => key,
            Err(error) => {
                assert(self.plan() =~= old(self).plan() + char_ops(ch));
                return Err(error);
            },
        };
        let shift = needs_shift(ch);
        if shift {
            emit(&mut self.ops, KeyOp::Press(Key::LeftShift));
        }
        emit(&mut self.ops, KeyOp::Click(key));
        if shift {
            emit(&mut self.ops, KeyOp::Release(Key::LeftShift));
        }
        emit(&mut self.ops, KeyOp::Sync);
        emit(&mut self.ops, KeyOp::Pause(Delay::Character));
        assert(self.plan() =~= old(self).plan() + char_ops(ch));
        Ok(())
    }
}

impl VirtualKeyboard for UInputKeyboard {
    open spec fn plan(&self) -> Seq<OpModel> {
        op_views(self.ops@)
    }

    open spec fn text_ops(typed: Seq<char>) -> Seq<OpModel> {
        uinput_text(typed)
    }

    open spec fn key_ops(key: SpecialKey) -> Seq<OpModel> {
        seq![
            OpModel::Click(special_key(key)),
            OpModel::Sync,
            OpModel::Pause(
                if key == SpecialKey::Backspace {
                    Delay::Backspace
                } else {
                    Delay::Key
                },
            ),
        ]
    }

    open spec fn word_ops() -> Seq<OpModel> {
        seq![
            OpModel::Press(Key::LeftControl),
            OpModel::Click(Key::BackSpace),
            OpModel::Release(Key::LeftControl),
            OpModel::Sync,
            OpModel::Pause(Delay::Word),
        ]
    }

    open spec fn press_ops(modifier: Modifier) -> Seq<OpModel> {
        seq![OpModel::Press(modifier_key(modifier)), OpModel::Sync]
    }

    open spec fn release_ops(modifier: Modifier) -> Seq<OpModel> {
        seq![OpModel::Release(modifier_key(modifier)), OpModel::Sync]
    }

    open spec fn chord_ops(modifiers: Seq<Modifier>, ch: char) -> Seq<OpModel> {
        match key_of(ch) {
            Some(key) => press_all(modifiers) + seq![OpModel::Click(key)] + release_all(modifiers)
                + seq![OpModel::Sync, OpModel::Pause(Delay::Chord)],
            None => press_all(modifiers),
        }
    }

    open spec fn chord_key(ch: char) -> bool {
        key_of(ch) is Some
    }

    fn type_text(&mut self, typed: &str) -> (r: Result<(), KeyboardError>) {
        let list = char_list(typed);
        let mut i: usize = 0;
        assert(self.plan() =~= old(self).plan() + uinput_text(list@.take(0)));
        while i < list.len()
            invariant
                i <= list.len(),
                self.plan() == old(self).plan() + uinput_text(list@.take(i as int)),
            decreases list.len() - i,
        {
            let ghost before = self.plan();
            let _ = self.type_char(list[i]);
            proof {
                assert(list@.take(i + 1).drop_last() =~= list@.take(i as int));
                assert(self.plan() =~= old(self).plan() + uinput_text(list@.take(i + 1)));
            }
            i += 1;
        }
        assert(list@.take(list@.len() as int) =~= list@);
        Ok(())
    }

    fn press_key(&mut self, key: SpecialKey) -> (r: Result<(), KeyboardError>) {
        emit(&mut self.ops, KeyOp::Click(special_to_key(key)));
        emit(&mut self.ops, KeyOp::Sync);
        let delay = if key == SpecialKey::Backspace { Delay::Backspace } else { Delay::Key };
        emit(&mut self.ops, KeyOp::Pause(delay));
        assert(self.plan() =~= old(self).plan() + Self::key_ops(key));
        Ok(())
    }

    fn delete_words(&mut self, count: usize) -> (r: Result<(), KeyboardError>) {
        let mut i: usize = 0;
        assert(self.plan() =~= old(self).plan() + repeated(Self::word_ops(), 0));
        while i < count
            invariant
                i <= count,
                self.plan() == old(self).plan() + repeated(Self::word_ops(), i as nat),
            decreases count - i,
        {
            let ghost before = self.plan();
            emit(&mut self.ops, KeyOp::Press(Key::LeftControl));
            emit(&mut self.ops, KeyOp::Click(Key::BackSpace));
            emit(&mut self.ops, KeyOp::Release(Key::LeftControl));
            emit(&mut self.ops, KeyOp::Sync);
            emit(&mut self.ops, KeyOp::Pause(Delay::Word));
            proof {
                assert(self.plan() =~= before + Self::word_ops());
                assert(self.plan() =~= old(self).plan() + repeated(
                    Self::word_ops(),
                    (i + 1) as nat,
                ));
            }
            i += 1;
        }
        Ok(())
    }

    fn press_modifier(&mut self, modifier: Modifier) -> (r: Result<(), KeyboardError>) {
        emit(&mut self.ops, KeyOp::Press(modifier_to_key(modifier)));
        emit(&mut self.ops, KeyOp::Sync);
        assert(self.plan() =~= old(self).plan() + Self::press_ops(modifier));
        Ok(())
    }

    fn release_modifier(&mut self, modifier: Modifier) -> (r: Result<(), KeyboardError>) {
        emit(&mut self.ops, KeyOp::Release(modifier_to_key(modifier)));
        emit(&mut self.ops, KeyOp::Sync);
        assert(self.plan() =~= old(self).plan() + Self::release_ops(modifier));
        Ok(())
    }

    fn send_chord(&mut self, modifiers: &[Modifier], ch: char) -> (r: Result<(), KeyboardError>) {
        plan_presses(&mut self.ops, modifiers);
        let key = match char_to_key(ch) {
            Ok(key) => key,
            Err(error) => return Err(error),
        };
        plan_click(&mut self.ops, modifiers, key);
        emit(&mut self.ops, KeyOp::Sync);
        emit(&mut self.ops, KeyOp::Pause(Delay::Chord));
        assert(self.plan() =~= old(self).plan() + Self::chord_ops(modifiers@, ch));
        Ok(())
    }
}

/// Puts an operation at the end of a plan.
fn emit(ops: &mut Vec<KeyOp>, op: KeyOp)
    ensures
        op_views(final(ops)@) == op_views(old(ops)@).push(op@),
{
    ops.push(op);
    assert(op_views(ops@) =~= op_views(old(ops)@).push(op@));
}

/// Plans for the modifiers to go down in order.
fn plan_presses(ops: &mut Vec<KeyOp>, modifiers: &[Modifier])
    ensures
        op_views(final(ops)@) == op_views(old(ops)@) + press_all(modifiers@),
{
    let mut i: usize = 0;
    assert(op_views(ops@) =~= op_views(old(ops)@) + press_all(modifiers@.take(0)));
    while i < modifiers.len()
        invariant
            i <= modifiers.len(),
            op_views(ops@) == op_views(old(ops)@) + press_all(modifiers@.take(i as int)),
        decreases modifiers.len() - i,
    {
        emit(ops, KeyOp::Press(modifier_to_key(modifiers[i])));
        proof {
            let done = press_all(modifiers@.take(i as int));
            assert(press_all(modifiers@.take(i + 1)) =~= done.push(
                OpModel::Press(modifier_key(modifiers@[i as int])),
            ));
            assert(op_views(ops@) =~= op_views(old(ops)@) + press_all(modifiers@.take(i + 1)));
        }
        i += 1;
    }
    assert(modifiers@.take(modifiers@.len() as int) =~= modifiers@);
}

/// Plans for the modifiers to go up in reverse order.
fn plan_releases(ops: &mut Vec<KeyOp>, modifiers: &[Modifier])
    ensures
        op_views(final(ops)@) == op_views(old(ops)@) + release_all(modifiers@),
{
    let mut i: usize = modifiers.len();
    assert(op_views(ops@) =~= op_views(old(ops)@) + release_all(modifiers@).take(0));
    while i > 0
        invariant
            i <= modifiers.len(),
            op_views(ops@) == op_views(old(ops)@) + release_all(modifiers@).take(
                modifiers@.len() - i,
            ),
        decreases i,
    {
        i -= 1;
        emit(ops, KeyOp::Release(modifier_to_key(modifiers[i])));
        proof {
            let all = release_all(modifiers@);
            let n = modifiers@.len() - i;
            assert(all.take(n) =~= all.take(n - 1).push(all[n - 1]));
            assert(op_views(ops@) =~= op_views(old(ops)@) + all.take(n));
        }
    }
    assert(release_all(modifiers@).take(modifiers@.len() as int) =~= release_all(modifiers@));
}

/// Plans for a key to be clicked and for the modifiers to go up.
fn plan_click(ops: &mut Vec<KeyOp>, modifiers: &[Modifier], key: Key)
    ensures
        op_views(final(ops)@) == op_views(old(ops)@) + seq![OpModel::Click(key)] + release_all(
            modifiers@,
        ),
{
    let ghost start = op_views(ops@);
    emit(ops, KeyOp::Click(key));
    assert(op_views(ops@) =~= start + seq![OpModel::Click(key)]);
    plan_releases(ops, modifiers);
}

/// The key that the layout has for a character.
pub open spec fn layout_key(ch: char) -> Key {
    Key::Unicode(ch)
}

/// Plans for an input library that enters text by itself.
#[derive(Debug)]
pub struct EnigoKeyboard {
    pub ops: Vec<KeyOp>,
}

impl EnigoKeyboard {
    /// A keyboard with an empty plan.
    pub fn new() -> (r: Self)
        ensures
            r.plan() == Seq::<OpModel>::empty(),
    {
        let r = EnigoKeyboard { ops: Vec::new() };
        assert(r.plan() =~= Seq::<OpModel>::empty());
        r
    }
}

impl VirtualKeyboard for EnigoKeyboard {
    open spec fn plan(&self) -> Seq<OpModel> {
        op_views(self.ops@)
    }

    open spec fn text_ops(typed: Seq<char>) -> Seq<OpModel> {
        seq![OpModel::Text(typed)]
    }

    open spec fn key_ops(key: SpecialKey) -> Seq<OpModel> {
        seq![OpModel::Click(special_key(key))]
    }

    open spec fn word_ops() -> Seq<OpModel> {
        seq![
            OpModel::Press(Key::LeftControl),
            OpModel::Click(Key::BackSpace),
            OpModel::Release(Key::LeftControl),
            OpModel::Pause(Delay::Word),
        ]
    }

    open spec fn press_ops(modifier: Modifier) -> Seq<OpModel> {
        seq![OpModel::Press(modifier_key(modifier))]
    }

    open spec fn release_ops(modifier: Modifier) -> Seq<OpModel> {
        seq![OpModel::Release(modifier_key(modifier))]
    }

    open spec fn chord_ops(modifiers: Seq<Modifier>, ch: char) -> Seq<OpModel> {
        press_all(modifiers) + seq![OpModel::Click(layout_key(ch))] + release_all(modifiers)
            + seq![OpModel::Pause(Delay::Chord)]
    }

    open spec fn chord_key(ch: char) -> bool {
        true
    }

    fn type_text(&mut self, typed: &str) -> (r: Result<(), KeyboardError>) {
        emit(&mut self.ops, KeyOp::Text(typed.to_owned()));
        assert(self.plan() =~= old(self).plan() + Self::text_ops(typed@));
        Ok(())
    }

    fn press_key(&mut self, key: SpecialKey) -> (r: Result<(), KeyboardError>) {
        emit(&mut self.ops, KeyOp::Click(special_to_key(key)));
        assert(self.plan() =~= old(self).plan() + Self::key_ops(key));
        Ok(())
    }

    fn delete_words(&mut self, count: usize) -> (r: Result<(), KeyboardError>) {
        let mut i: usize = 0;
        assert(self.plan() =~= old(self).plan() + repeated(Self::word_ops(), 0));
        while i < count
            invariant
                i <= count,
                self.plan() == old(self).plan() + repeated(Self::word_ops(), i as nat),
            decreases count - i,
        {
            let ghost before = self.plan();
            emit(&mut self.ops, KeyOp::Press(Key::LeftControl));
            emit(&mut self.ops, KeyOp::Click(Key::BackSpace));
            emit(&mut self.ops, KeyOp::Release(Key::LeftControl));
            emit(&mut self.ops, KeyOp::Pause(Delay::Word));
            proof {
                assert(self.plan() =~= before + Self::word_ops());
                assert(self.plan() =~= old(self).plan() + repeated(
                    Self::word_ops(),
                    (i + 1) as nat,
                ));
            }
            i += 1;
        }
        Ok(())
    }

    fn press_modifier(&mut self, modifier: Modifier) -> (r: Result<(), KeyboardError>) {
        emit(&mut self.ops, KeyOp::Press(modifier_to_key(modifier)));
        assert(self.plan() =~= old(self).plan() + Self::press_ops(modifier));
        Ok(())
    }

    fn release_modifier(&mut self, modifier: Modifier) -> (r: Result<(), KeyboardError>) {
        emit(&mut self.ops, KeyOp::Release(modifier_to_key(modifier)));
        assert(self.plan() =~= old(self).plan() + Self::release_ops(modifier));
        Ok(())
    }

    fn send_chord(&mut self, modifiers: &[Modifier], ch: char) -> (r: Result<(), KeyboardError>) {
        let key = Key::Unicode(ch);
        assert(key == layout_key(ch));
        plan_presses(&mut self.ops, modifiers);
        plan_click(&mut self.ops, modifiers, key);
        emit(&mut self.ops, KeyOp::Pause(Delay::Chord));
        assert(self.plan() =~= old(self).plan() + Self::chord_ops(modifiers@, ch));
        Ok(())
    }
}

/// The place of the first pause from a place on, or the end of the plan.
pub open spec fn next_pause(ops: Seq<OpModel>, from: int) -> int
    decreases ops.len() - from,
{
    if from >= ops.len() || ops[from] is Pause {
        from
    } else {
        next_pause(ops, from + 1)
    }
}

/// Where a plan goes on after an operation failed: behind the pause of a typed character,
/// nowhere in any other input.
pub open spec fn resumed(ops: Seq<OpModel>, failed: int) -> Option<int> {
    let pause = next_pause(ops, failed);
    if pause < ops.len() && ops[pause] == OpModel::Pause(Delay::Character) {
        Some(pause + 1)
    } else {
        None
    }
}

/// Decides where a plan goes on after an operation failed.
pub fn resume_after(ops: &Vec<KeyOp>, failed: usize) -> (r: Option<usize>)
    requires
        failed < ops@.len(),
    ensures
        match r {
            Some(place) => resumed(op_views(ops@), failed as int) == Some(place as int),
            None => resumed(op_views(ops@), failed as int) is None,
        },
{
    let mut i: usize = failed;
    while i < ops.len()
        invariant
            failed <= i <= ops.len(),
            next_pause(op_views(ops@), failed as int) == next_pause(op_views(ops@), i as int),
        decreases ops.len() - i,
    {
        assert(op_views(ops@)[i as int] == ops@[i as int]@);
        if let KeyOp::Pause(delay) = &ops[i] {
            return if *delay == Delay::Character {
                Some(i + 1)
            } else {
                None
            };
        }
        i += 1;
    }
    None
}

/// The operations that enter a word and the space after it.
pub open spec fn word_typed<K: VirtualKeyboard>(word: Seq<char>) -> Seq<OpModel> {
    K::text_ops(word) + K::key_ops(SpecialKey::Space)
}

/// The operations that take back `backspaces` characters, and enter a text and a space.
pub open spec fn retyped<K: VirtualKeyboard>(backspaces: nat, typed: Seq<char>) -> Seq<OpModel> {
    repeated(K::key_ops(SpecialKey::Backspace), backspaces) + word_typed::<K>(typed)
}

/// Types a word and the space after it.
pub fn type_word<K: VirtualKeyboard>(keyboard: &mut K, word: &str) -> (r: Result<(), KeyboardError>)
    ensures
        r is Ok,
        final(keyboard).plan() == old(keyboard).plan() + word_typed::<K>(word@),
{
    let ghost start = keyboard.plan();
    let typed = keyboard.type_text(word);
    if typed.is_err() {
        return typed;
    }
    let spaced = keyboard.press_key(SpecialKey::Space);
    assert(keyboard.plan() =~= start + word_typed::<K>(word@));
    spaced
}

/// Takes back characters and types a text and a space in their place.
pub fn retype<K: VirtualKeyboard>(keyboard: &mut K, backspaces: usize, typed: &str) -> (r: Result<
    (),
    KeyboardError,
>)
    ensures
        r is Ok,
        final(keyboard).plan() == old(keyboard).plan() + retyped::<K>(
            backspaces as nat,
            typed@,
        ),
{
    let ghost start = keyboard.plan();
    let ghost back = K::key_ops(SpecialKey::Backspace);
    let mut i: usize = 0;
    assert(keyboard.plan() =~= start + repeated(back, 0));
    while i < backspaces
        invariant
            i <= backspaces,
            back == K::key_ops(SpecialKey::Backspace),
            keyboard.plan() == start + repeated(back, i as nat),
        decreases backspaces - i,
    {
        let pressed = keyboard.press_key(SpecialKey::Backspace);
        if pressed.is_err() {
            return pressed;
        }
        assert(keyboard.plan() =~= start + repeated(back, (i + 1) as nat));
        i += 1;
    }
    let done = type_word(keyboard, typed);
    assert(keyboard.plan() =~= start + retyped::<K>(backspaces as nat, typed@));
    done
}

} // verus!
