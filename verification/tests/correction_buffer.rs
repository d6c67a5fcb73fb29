//! The words that wait for a correction.

use ears::correction_buffer::{CorrectionBuffer, CorrectionProfile, CHUNK_SIZE};

fn filled(profile: CorrectionProfile, words: &[&str]) -> CorrectionBuffer {
    let mut buffer = CorrectionBuffer::new(profile);
    for word in words {
        buffer.add_word(word);
    }
    buffer
}

#[test]
fn technical_text_is_collected_in_chunks() {
    let mut buffer = filled(CorrectionProfile::Technical, &["run", "the", "bath"]);
    assert_eq!(buffer.chunk_len(), 3);
    assert_eq!(buffer.paragraph_len(), 3);
    let (text, words, chars, list) = buffer.take_chunk();
    assert_eq!((text.as_str(), words, chars), ("run the bath", 3, 12));
    assert_eq!(list, vec!["run".to_string(), "the".to_string(), "bath".to_string()]);
    assert_eq!(buffer.chunk_len(), 0);
    assert_eq!(buffer.paragraph_len(), 3);
}

#[test]
fn prose_is_collected_in_paragraphs_only() {
    let mut buffer = filled(CorrectionProfile::Journal, &["dear", "diary,"]);
    assert_eq!(buffer.chunk_len(), 0);
    assert!(!buffer.should_correct_chunk("diary."));
    assert_eq!(buffer.take_chunk().0, "");
    assert_eq!(buffer.take_paragraph(), ("dear diary,".to_string(), 2, 11));
    assert_eq!(buffer.paragraph_len(), 0);
}

#[test]
fn a_paragraph_takes_its_chunk_along() {
    let mut buffer = filled(CorrectionProfile::Technical, &["a", "b"]);
    assert_eq!(buffer.take_paragraph(), ("a b".to_string(), 2, 3));
    assert_eq!(buffer.chunk_len(), 0);
}

#[test]
fn a_chunk_can_be_forgotten() {
    let mut buffer = filled(CorrectionProfile::Technical, &["a", "b"]);
    buffer.reset_chunk();
    assert_eq!(buffer.chunk_len(), 0);
    assert_eq!(buffer.paragraph_len(), 2);
}

#[test]
fn chunks_end_with_punctuation_or_six_words() {
    let buffer = filled(CorrectionProfile::Technical, &["a"]);
    for word in ["end.", "end?", "end! ", "\tend.\n", "end,", "end;"] {
        assert!(buffer.should_correct_chunk(word));
    }
    for word in ["end", "end:", ".end", ",end", ""] {
        assert!(!buffer.should_correct_chunk(word));
    }
    let five = filled(CorrectionProfile::Technical, &["a"; 5]);
    assert!(!five.should_correct_chunk("a"));
    let six = filled(CorrectionProfile::Technical, &["a"; 6]);
    assert!(six.should_correct_chunk("a"));
    assert_eq!(CHUNK_SIZE, 6);
}

#[test]
fn a_late_correction_keeps_newer_words() {
    let mut buffer = filled(CorrectionProfile::Technical, &["helo", "wrold"]);
    let (_, _, _, words) = buffer.take_chunk();
    buffer.add_word("foo");
    buffer.apply_chunk_correction(&words, "hello world");
    assert_eq!(buffer.chunk_len(), 1);
    assert_eq!(buffer.take_chunk().0, "foo");
    assert_eq!(buffer.take_paragraph(), ("hello world foo".to_string(), 3, 15));
}

#[test]
fn a_correction_replaces_the_chunk_in_the_paragraph() {
    let mut buffer = filled(CorrectionProfile::Technical, &["please"]);
    buffer.take_chunk();
    buffer.add_word("can");
    buffer.add_word("not");
    let (_, _, _, words) = buffer.take_chunk();
    buffer.apply_chunk_correction(&words, "cannot");
    assert_eq!(buffer.take_paragraph(), ("please cannot".to_string(), 2, 13));
}

#[test]
fn a_correction_of_a_chunk_that_was_not_taken_replaces_the_end() {
    let mut buffer = filled(CorrectionProfile::Technical, &["p"]);
    buffer.take_chunk();
    buffer.add_word("a");
    buffer.apply_chunk_correction(&["a".to_string()], "x");
    assert_eq!(buffer.chunk_len(), 1);
    assert_eq!(buffer.take_paragraph(), ("p x".to_string(), 2, 3));
    let mut buffer = filled(CorrectionProfile::Technical, &["one", "two", "three"]);
    let last = vec!["two".to_string(), "three".to_string()];
    buffer.apply_chunk_correction(&last, "2 3 4");
    assert_eq!(buffer.chunk_len(), 3);
    assert_eq!(buffer.take_paragraph(), ("one 2 3 4".to_string(), 4, 9));
    let mut buffer = filled(CorrectionProfile::Technical, &["a"]);
    buffer.apply_chunk_correction(&["a".to_string()], "x");
    assert_eq!(buffer.take_paragraph().0, "x");
}

#[test]
fn the_same_words_said_again_stay_behind_a_late_correction() {
    let mut buffer = filled(CorrectionProfile::Technical, &["so", "helo"]);
    let (_, _, _, words) = buffer.take_chunk();
    buffer.add_word("so");
    buffer.add_word("helo");
    buffer.apply_chunk_correction(&words, "So hello");
    assert_eq!(buffer.take_paragraph().0, "So hello so helo");
}

#[test]
fn a_correction_of_a_paragraph_that_collects_no_chunks() {
    let mut buffer = filled(CorrectionProfile::Journal, &["dear", "diary"]);
    buffer.apply_chunk_correction(&["diary".to_string()], "Diary,");
    assert_eq!(buffer.take_paragraph().0, "dear Diary,");
}

#[test]
fn a_correction_of_more_words_than_there_are_is_appended() {
    let mut buffer = filled(CorrectionProfile::Technical, &["a"]);
    let words = vec!["x".to_string(), "y".to_string()];
    buffer.apply_chunk_correction(&words, " b  c ");
    assert_eq!(buffer.take_paragraph(), ("a b c".to_string(), 3, 5));
}

#[test]
fn lengths_of_chunks_are_bytes() {
    let mut buffer = filled(CorrectionProfile::Technical, &["é", "→"]);
    assert_eq!(buffer.take_chunk().2, 6);
    assert_eq!(buffer.take_paragraph().2, 6);
}
