//! The preview buffer.

use ears::preview_buffer::{DisplayStyle, PreviewBuffer};

#[test]
fn test_add_words() {
    let mut buffer = PreviewBuffer::new();
    buffer.add_word("hello".to_string());
    buffer.add_word("world".to_string());
    assert_eq!(buffer.active_text(), "hello world");
    assert_eq!(buffer.active_word_count(), 2);
}

#[test]
fn test_correction() {
    let mut buffer = PreviewBuffer::new();
    buffer.add_word("helo".to_string());
    buffer.add_word("wrold".to_string());
    buffer.apply_correction("hello world".to_string());
    assert_eq!(buffer.active_text_display(), "hello world");
    assert_eq!(buffer.active_text(), "helo wrold"); // original preserved
}

#[test]
fn test_checkpoint() {
    let mut buffer = PreviewBuffer::new();
    buffer.add_word("first".to_string());
    buffer.add_word("section".to_string());

    let text = buffer.checkpoint();
    assert_eq!(text, Some("first section".to_string()));
    assert!(buffer.active_words.is_empty());
    assert_eq!(buffer.committed_sections.len(), 1);

    buffer.add_word("second".to_string());
    buffer.add_word("section".to_string());

    let sections = buffer.display_sections();
    assert_eq!(sections.len(), 3); // committed, separator, active
}

#[test]
fn test_commit() {
    let mut buffer = PreviewBuffer::new();
    buffer.add_word("first".to_string());
    buffer.checkpoint();
    buffer.add_word("second".to_string());

    let text = buffer.commit();
    assert_eq!(text, Some("first\n\nsecond".to_string()));
    assert!(buffer.is_empty());
}

#[test]
fn test_chunk_correction_no_new_words() {
    let mut buffer = PreviewBuffer::new();
    for w in ["hello", "wrold", "foo", "bar"] {
        buffer.add_word(w.to_string());
    }
    // Correct last 2 words (chunk at index 2, len 2)
    buffer.apply_chunk_correction(2, 2, "foo bar");
    assert_eq!(buffer.active_text(), "hello wrold foo bar");
}

#[test]
fn test_chunk_correction_with_new_words() {
    let mut buffer = PreviewBuffer::new();
    // Original 4 words
    for w in ["hello", "wrold", "foo", "bar"] {
        buffer.add_word(w.to_string());
    }
    // Simulate: chunk was last 2 words, but 2 new words arrived during correction
    buffer.add_word("baz".to_string());
    buffer.add_word("qux".to_string());
    // Now active_words = [hello, wrold, foo, bar, baz, qux]
    // Correct chunk at index 2 (foo, bar) → "Foo Bar"
    buffer.apply_chunk_correction(2, 2, "Foo Bar");
    // Should preserve baz, qux after the corrected chunk
    assert_eq!(buffer.active_text(), "hello wrold Foo Bar baz qux");
}

#[test]
fn test_chunk_correction_changes_word_count() {
    let mut buffer = PreviewBuffer::new();
    for w in ["i", "can", "not", "go"] {
        buffer.add_word(w.to_string());
    }
    // Correct "can not" (index 1, len 2) → "cannot" (1 word)
    buffer.apply_chunk_correction(1, 2, "cannot");
    assert_eq!(buffer.active_text(), "i cannot go");
    assert_eq!(buffer.active_word_count(), 3);
}

#[test]
fn test_breakpoint_complete_preserves_new_words() {
    let mut buffer = PreviewBuffer::new();
    for w in ["alpha", "beta", "gamma", "delta"] {
        buffer.add_word(w.to_string());
    }
    // Simulate new words arriving during correction
    buffer.add_word("epsilon".to_string());
    buffer.add_word("zeta".to_string());

    let result = buffer.breakpoint_complete("alpha beta gamma delta".to_string(), 4);
    assert_eq!(result, Some("alpha beta gamma delta".to_string()));
    assert_eq!(buffer.active_text(), "epsilon zeta");
    assert_eq!(buffer.committed_sections.len(), 1);
}

#[test]
fn test_breakpoint_complete_empty_buffer() {
    let mut buffer = PreviewBuffer::new();
    let result = buffer.breakpoint_complete(String::new(), 0);
    assert_eq!(result, None);
    assert!(buffer.active_words.is_empty());
    assert!(buffer.committed_sections.is_empty());
}

#[test]
fn test_breakpoint_complete_boundary_exceeds_len() {
    let mut buffer = PreviewBuffer::new();
    buffer.add_word("one".to_string());
    buffer.add_word("two".to_string());
    let result = buffer.breakpoint_complete("one two".to_string(), 5);
    assert_eq!(result, Some("one two".to_string()));
    assert!(buffer.active_words.is_empty());
    assert_eq!(buffer.committed_sections.len(), 1);
}

#[test]
fn test_breakpoint_complete_zero_boundary() {
    let mut buffer = PreviewBuffer::new();
    buffer.add_word("keep".to_string());
    buffer.add_word("these".to_string());
    let result = buffer.breakpoint_complete("committed".to_string(), 0);
    assert_eq!(result, Some("committed".to_string()));
    assert_eq!(buffer.active_text(), "keep these");
    assert_eq!(buffer.committed_sections.len(), 1);
}

#[test]
fn a_word_drops_the_correction() {
    let mut buffer = PreviewBuffer::new();
    buffer.add_word("helo".to_string());
    buffer.set_correction_pending(true);
    assert!(buffer.is_correction_pending());
    buffer.apply_correction("hello".to_string());
    assert!(!buffer.is_correction_pending());
    buffer.add_word("world".to_string());
    assert_eq!(buffer.corrected_active, None);
    assert_eq!(buffer.active_text_display(), "helo world");
}

#[test]
fn nothing_to_paste_changes_nothing() {
    let mut buffer = PreviewBuffer::default();
    assert_eq!(buffer.checkpoint(), None);
    assert_eq!(buffer.commit(), None);
    assert!(buffer.is_empty());
    assert_eq!(buffer.display_sections().len(), 0);
}

#[test]
fn a_chunk_beyond_the_last_word_changes_no_word() {
    let mut buffer = PreviewBuffer::new();
    buffer.add_word("one".to_string());
    buffer.apply_correction("ONE".to_string());
    buffer.apply_chunk_correction(2, 1, "two");
    assert_eq!(buffer.active_text(), "one");
    assert_eq!(buffer.corrected_active, None);
}

#[test]
fn a_chunk_that_ends_beyond_the_last_word_is_cut() {
    let mut buffer = PreviewBuffer::new();
    buffer.add_word("one".to_string());
    buffer.add_word("two".to_string());
    buffer.apply_chunk_correction(1, 7, "  2 \t 3\n");
    assert_eq!(buffer.active_words, vec!["one".to_string(), "2".to_string(), "3".to_string()]);
}

#[test]
fn sections_are_shown_with_separators() {
    let mut buffer = PreviewBuffer::new();
    for word in ["a", "b", "c"] {
        buffer.add_word(word.to_string());
        if word != "c" {
            buffer.checkpoint();
        }
    }
    let shown: Vec<(String, DisplayStyle)> =
        buffer.display_sections().into_iter().map(|s| (s.text, s.style)).collect();
    assert_eq!(
        shown,
        vec![
            ("a".to_string(), DisplayStyle::Committed),
            (String::new(), DisplayStyle::Separator),
            ("b".to_string(), DisplayStyle::Committed),
            (String::new(), DisplayStyle::Separator),
            ("c".to_string(), DisplayStyle::Active),
        ]
    );
}

#[test]
fn a_checkpoint_before_a_commit_pastes_the_same_sections() {
    let mut once = PreviewBuffer::new();
    let mut twice = PreviewBuffer::new();
    for buffer in [&mut once, &mut twice] {
        buffer.add_word("first".to_string());
        buffer.checkpoint();
        buffer.add_word("second".to_string());
    }
    twice.checkpoint();
    assert_eq!(once.commit(), twice.commit());
}

#[test]
fn clear_forgets_everything() {
    let mut buffer = PreviewBuffer::new();
    buffer.add_word("first".to_string());
    buffer.checkpoint();
    buffer.add_word("second".to_string());
    buffer.clear();
    assert!(buffer.is_empty());
    assert_eq!(buffer.commit(), None);
}

#[test]
fn a_correction_is_pending_until_it_comes_or_text_is_pasted() {
    let marked = || {
        let mut buffer = PreviewBuffer::new();
        buffer.add_word("one".to_string());
        buffer.set_correction_pending(true);
        buffer
    };
    let mut buffer = PreviewBuffer::new();
    buffer.set_correction_pending(true);
    assert_eq!(buffer.checkpoint(), None);
    assert_eq!(buffer.commit(), None);
    assert_eq!(buffer.breakpoint_complete(String::new(), 0), None);
    assert!(buffer.is_correction_pending());
    let mut buffer = marked();
    buffer.add_word("two".to_string());
    buffer.apply_chunk_correction(0, 1, "three");
    assert!(buffer.is_correction_pending());
    buffer.set_correction_pending(false);
    assert!(!buffer.is_correction_pending());
    let mut buffer = marked();
    buffer.apply_correction("One.".to_string());
    assert!(!buffer.is_correction_pending());
    let mut buffer = marked();
    buffer.checkpoint();
    assert!(!buffer.is_correction_pending());
    let mut buffer = marked();
    buffer.breakpoint_complete("One.".to_string(), 1);
    assert!(!buffer.is_correction_pending());
    let mut buffer = marked();
    buffer.commit();
    assert!(!buffer.is_correction_pending());
    let mut buffer = marked();
    buffer.clear();
    assert!(!buffer.is_correction_pending());
}
