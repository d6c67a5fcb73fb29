//! Pasting through the clipboard: what is copied and which chord pastes it.

use crate::text;
use crate::text::{char_list, same_text, split_at};
use crate::virtual_keyboard::{KeyboardError, Modifier, VirtualKeyboard};
use vstd::prelude::*;
use vstd::utf8::*;

verus! {

/// The pause in milliseconds between copying and pasting, for the clipboard to be served.
pub const PASTE_DELAY_MS: u64 = 50;

/// Why a text was not pasted.
#[derive(Debug, Clone, Copy, PartialEq, Eq, Structural)]
pub enum ClipboardError {
    /// There is no clipboard to copy to.
    Unsupported,
    /// The clipboard did not take the text.
    CopyFailed,
    /// The paste hotkey names no key.
    NoKeyCharacter,
    /// The paste hotkey could not be sent.
    Keyboard(KeyboardError),
}

/// The modifier that a part of the paste hotkey names.
pub open spec fn named_modifier(part: Seq<char>) -> Option<Modifier> {
    let low = text::lowercase(part);
    if low == "ctrl"@ || low == "control"@ {
        Some(Modifier::Ctrl)
    } else if low == "shift"@ {
        Some(Modifier::Shift)
    } else if low == "alt"@ {
        Some(Modifier::Alt)
    } else if low == "super"@ || low == "meta"@ {
        Some(Modifier::Super)
    } else {
        None
    }
}

/// The modifiers of a paste hotkey: those that the parts before the last name, in order.
pub open spec fn hotkey_modifiers(hotkey: Seq<char>) -> Seq<Modifier> {
    text::split(hotkey, '+').drop_last().filter_map(|part: Seq<char>| named_modifier(part))
}

/// The key of a paste hotkey: the first character of its last part.
pub open spec fn hotkey_character(hotkey: Seq<char>) -> Option<char> {
    let last = text::split(hotkey, '+').last();
    if last.len() == 0 {
        None
    } else {
        Some(last[0])
    }
}

/// The modifier that a part of the paste hotkey names.
fn find_modifier(part: &str) -> (r: Option<Modifier>)
    ensures
        r == named_modifier(part@),
{
    let lowered = part.to_lowercase();
    let low = lowered.as_str();
    if same_text(low, "ctrl") || same_text(low, "control") {
        Some(Modifier::Ctrl)
    } else if same_text(low, "shift") {
        Some(Modifier::Shift)
    } else if same_text(low, "alt") {
        Some(Modifier::Alt)
    } else if same_text(low, "super") || same_text(low, "meta") {
        Some(Modifier::Super)
    } else {
        None
    }
}

/// Reads a paste hotkey such as `ctrl+shift+v`.
pub fn parse_paste_hotkey(hotkey: &str) -> (r: Result<(Vec<Modifier>, char), ClipboardError>)
    ensures
        match hotkey_character(hotkey@) {
            Some(ch) => r matches Ok(chord) && chord.0@ == hotkey_modifiers(hotkey@) && chord.1
                == ch,
            None => r == Err::<(Vec<Modifier>, char), _>(ClipboardError::NoKeyCharacter),
        },
{
    let parts = split_at(hotkey, '+');
    let count: usize = parts.len() - 1;
    let ghost views = text::split(hotkey@, '+');
    let ghost named = |part: Seq<char>| named_modifier(part);
    assert(text::texts(parts@)[count as int] == parts@[count as int]@);
    let last = char_list(parts[count].as_str());
    if last.len() == 0 {
        return Err(ClipboardError::NoKeyCharacter);
    }
    let mut modifiers: Vec<Modifier> = Vec::new();
    let mut i: usize = 0;
    proof {
        reveal(Seq::filter_map);
        assert(views.drop_last().take(0).filter_map(named) =~= modifiers@);
    }
    while i < count
        invariant
            i <= count,
            count == parts@.len() - 1,
            text::texts(parts@) == views,
            named == (|part: Seq<char>| named_modifier(part)),
            modifiers@ == views.drop_last().take(i as int).filter_map(named),
        decreases count - i,
    {
        assert(views.drop_last()[i as int] == parts@[i as int]@);
        proof {
            views.drop_last().lemma_filter_map_take_succ(named, i as int);
        }
        if let Some(modifier) = find_modifier(parts[i].as_str()) {
            modifiers.push(modifier);
        }
        i += 1;
    }
    assert(views.drop_last().take(count as int) =~= views.drop_last());
    Ok((modifiers, last[0]))
}

/// The bytes to offer as text to the clipboard, if there is a clipboard.
pub fn copy_to_clipboard(copied: &str, available: bool) -> (r: Result<Vec<u8>, ClipboardError>)
    ensures
        available ==> (r matches Ok(offered) && offered@ == encode_utf8(copied@)),
        !available ==> r == Err::<Vec<u8>, _>(ClipboardError::Unsupported),
        r matches Ok(offered) ==> valid_utf8(offered@) && decode_utf8(offered@) == copied@,
{
    if !available {
        return Err(ClipboardError::Unsupported);
    }
    let source = copied.as_bytes();
    let mut offered: Vec<u8> = Vec::new();
    let mut i: usize = 0;
    while i < source.len()
        invariant
            i <= source.len(),
            offered@ == source@.take(i as int),
        decreases source.len() - i,
    {
        offered.push(source[i]);
        assert(source@.take(i + 1) =~= source@.take(i as int).push(source@[i as int]));
        i += 1;
    }
    proof {
        assert(source@.take(source@.len() as int) =~= source@);
        encode_utf8_valid_utf8(copied@);
        encode_utf8_decode_utf8(copied@);
    }
    Ok(offered)
}

/// Sends the paste hotkey once the text was copied, and nothing where it was not.
pub fn copy_and_paste<K: VirtualKeyboard>(
    copied: Result<(), ClipboardError>,
    keyboard: &mut K,
    paste_hotkey: &str,
) -> (r: Result<(), ClipboardError>)
    ensures
        copied is Err ==> r == copied && final(keyboard).plan() == old(keyboard).plan(),
        copied is Ok ==> match hotkey_character(paste_hotkey@) {
            Some(ch) => {
                &&& r == if K::chord_key(ch) {
                    Ok(())
                } else {
                    Err(ClipboardError::Keyboard(KeyboardError::UnsupportedCharacter(ch)))
                }
                &&& final(keyboard).plan() == old(keyboard).plan() + K::chord_ops(
                    hotkey_modifiers(paste_hotkey@),
                    ch,
                )
            },
            None => {
                &&& r == Err::<(), _>(ClipboardError::NoKeyCharacter)
                &&& final(keyboard).plan() == old(keyboard).plan()
            },
        },
{
    if copied.is_err() {
        return copied;
    }
    let (modifiers, ch) = match parse_paste_hotkey(paste_hotkey) {
        Ok(chord) => chord,
        Err(error) => return Err(error),
    };
    match keyboard.send_chord(modifiers.as_slice(), ch) {
        Ok(()) => Ok(()),
        Err(error) => Err(ClipboardError::Keyboard(error)),
    }
}

} // verus!
