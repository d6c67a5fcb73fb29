//! Words, joining, splitting and trimming.

use ears::text::{
    byte_len, decimal_text, ends_with, join_texts, lower_ascii, same_text, split_at, split_words,
    trim_text, CharClass,
};

fn list(parts: &[&str]) -> Vec<String> {
    parts.iter().map(|part| part.to_string()).collect()
}

#[test]
fn words_are_split_at_white_space() {
    assert_eq!(split_words(""), list(&[]));
    assert_eq!(split_words(" \t\n"), list(&[]));
    assert_eq!(split_words("  one\ttwo\n three "), list(&["one", "two", "three"]));
    assert_eq!(split_words("a\u{3000}b\u{a0}c"), list(&["a", "b", "c"]));
}

#[test]
fn white_space_of_every_character_agrees_with_std() {
    for n in 0..=0x10ffffu32 {
        if let Some(c) = char::from_u32(n) {
            let lone = CharClass::WhiteSpace.contains(c);
            let listed = matches!(
                n,
                0x09..=0x0d
                    | 0x20
                    | 0x85
                    | 0xa0
                    | 0x1680
                    | 0x2000..=0x200a
                    | 0x2028
                    | 0x2029
                    | 0x202f
                    | 0x205f
                    | 0x3000
            );
            assert_eq!(lone, listed, "{:x}", n);
        }
    }
}

#[test]
fn letters_and_digits_of_ascii() {
    for n in 0..0x80u8 {
        let c = n as char;
        assert_eq!(!CharClass::NotAlphanumeric.contains(c), c.is_ascii_alphanumeric());
    }
    assert!(!CharClass::NotAlphanumeric.contains('é'));
    assert!(CharClass::NotAlphanumeric.contains('—'));
}

#[test]
fn lower_case_of_ascii_and_beyond() {
    let combo = ears::hotkeys::parse_combo("CTRL+Ω");
    assert!(combo.0);
    assert_eq!(ears::similarity::compared("ÄPFEL Straße, \"NO\""), list(&["äpfel", "straße", "no"]));
}

#[test]
fn evenly_spaced_words_are_read_back() {
    let words = list(&["one", "two", "three"]);
    assert_eq!(split_words(&join_texts(&words, " ")), words);
    let once = split_words("  one \t two ");
    assert_eq!(split_words(&join_texts(&once, " ")), once);
}

#[test]
fn joining_undoes_splitting() {
    for source in ["", "+", "a", "a+b", "+a++b+"] {
        let parts = split_at(source, '+');
        assert_eq!(join_texts(&parts, "+"), source);
        assert!(parts.iter().all(|part| !part.contains('+')));
        let expected: Vec<String> = source.split('+').map(|part| part.to_string()).collect();
        assert_eq!(parts, expected);
    }
}

#[test]
fn trimming_takes_both_ends() {
    assert_eq!(trim_text(" \u{2003}a b\n", CharClass::WhiteSpace), "a b");
    assert_eq!(trim_text("\"\"a\"b\"", CharClass::Quote), "a\"b");
    assert_eq!(trim_text("(don't!)", CharClass::NotAlphanumeric), "don't");
    assert_eq!(trim_text("...", CharClass::NotAlphanumeric), "");
    assert_eq!(trim_text("", CharClass::Quote), "");
    let once = trim_text(" x ", CharClass::WhiteSpace);
    assert_eq!(trim_text(&once, CharClass::WhiteSpace), once);
}

#[test]
fn lengths_are_bytes() {
    assert_eq!(byte_len(""), 0);
    assert_eq!(byte_len("abc"), 3);
    assert_eq!(byte_len("é→𝄞"), 9);
}

#[test]
fn comparing_and_ends() {
    assert!(same_text("é", "é"));
    assert!(!same_text("é", "e"));
    assert!(!same_text("ab", "abc"));
    assert!(ends_with("ab.", '.'));
    assert!(!ends_with("", '.'));
    assert!(ends_with("→", '→'));
}

#[test]
fn decimals() {
    for n in [0usize, 7, 10, 99, 100, 8765, usize::MAX] {
        assert_eq!(decimal_text(n), format!("{}", n));
    }
}

#[test]
fn capitals_of_ascii_are_lowered() {
    assert_eq!(lower_ascii("Az Zé ÉÀ [@`{"), "az zé ÉÀ [@`{");
    assert_eq!(lower_ascii(""), "");
}
