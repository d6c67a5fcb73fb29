//! Which corrections may replace what was dictated.

use ears::correction_buffer::CorrectionProfile;
use ears::similarity::{compared, is_safe_correction, is_similar};
use std::collections::HashSet;

const JOURNAL: CorrectionProfile = CorrectionProfile::Journal;
const TECHNICAL: CorrectionProfile = CorrectionProfile::Technical;

fn numbered(from: usize, to: usize) -> Vec<String> {
    (from..to).map(|n| format!("w{}", n)).collect()
}

#[test]
fn compared_words_lack_punctuation_and_fillers() {
    assert_eq!(compared("Uh, Hello -- World! um"), vec!["hello".to_string(), "world".to_string()]);
    assert_eq!(compared("ERM uhh umm ..."), Vec::<String>::new());
}

#[test]
fn the_same_text_is_safe() {
    assert!(is_safe_correction("run the batch", "run the batch", JOURNAL));
    assert!(is_safe_correction("run the batch", "Run the batch.", TECHNICAL));
    assert!(is_safe_correction("uh run the batch", "Run the batch.", JOURNAL));
}

#[test]
fn texts_without_words_are_never_safe() {
    assert!(!is_safe_correction("", "", JOURNAL));
    assert!(!is_safe_correction("um", "um", TECHNICAL));
    assert!(!is_safe_correction("word", "...", TECHNICAL));
    assert!(!is_safe_correction("...", "word", TECHNICAL));
}

#[test]
fn short_texts_keep_their_length() {
    assert!(!is_safe_correction("one two three", "one two", TECHNICAL));
    assert!(!is_safe_correction("one two", "one two three", JOURNAL));
}

#[test]
fn length_bounds_are_inclusive() {
    let dictated = numbered(0, 20);
    assert!(is_similar(&dictated, &numbered(0, 19), JOURNAL));
    assert!(is_similar(&dictated, &numbered(0, 21), JOURNAL));
    assert!(!is_similar(&dictated, &numbered(0, 22), JOURNAL));
    assert!(!is_similar(&dictated, &numbered(0, 18), JOURNAL));
    assert!(is_similar(&dictated, &numbered(0, 22), TECHNICAL));
    assert!(is_similar(&dictated, &numbered(0, 18), TECHNICAL));
    assert!(!is_similar(&dictated, &numbered(0, 23), TECHNICAL));
}

#[test]
fn few_distinct_words_have_a_share_of_their_own() {
    assert!(!is_safe_correction("one two three", "one two four", TECHNICAL));
    assert!(is_safe_correction("a a a b", "a a a b", JOURNAL));
    assert!(!is_safe_correction("one two", "one three", JOURNAL));
}

#[test]
fn prose_is_stricter_than_technical_text() {
    let dictated = numbered(0, 20);
    let mut changed = numbered(0, 18);
    changed.push("x".to_string());
    changed.push("y".to_string());
    assert!(is_similar(&dictated, &changed, TECHNICAL));
    assert!(!is_similar(&dictated, &changed, JOURNAL));
}

fn by_floats(original: &[String], corrected: &[String], profile: CorrectionProfile) -> bool {
    if original.is_empty() || corrected.is_empty() {
        return false;
    }
    let (min_ratio, max_ratio, base): (f32, f32, f32) = match profile {
        CorrectionProfile::Journal => (0.95, 1.05, 0.95),
        CorrectionProfile::Technical => (0.9, 1.1, 0.9),
    };
    let ratio = corrected.len() as f32 / original.len() as f32;
    if ratio > max_ratio || ratio < min_ratio {
        return false;
    }
    let first: HashSet<&String> = original.iter().collect();
    let second: HashSet<&String> = corrected.iter().collect();
    let overlap = first.intersection(&second).count();
    let threshold = if first.len() <= 3 { 0.7 } else { base };
    overlap as f32 / first.len() as f32 >= threshold
}

#[test]
fn shares_agree_with_ratios_of_floats() {
    for n in 1..130usize {
        let dictated = numbered(0, n);
        for m in n.saturating_sub(14)..(n + 15) {
            for kept in [m, m.saturating_sub(1), m.saturating_sub(3), m.saturating_sub(7)] {
                let mut returned = numbered(0, kept);
                returned.extend(numbered(1000, 1000 + m - kept));
                for profile in [JOURNAL, TECHNICAL] {
                    assert_eq!(
                        is_similar(&dictated, &returned, profile),
                        by_floats(&dictated, &returned, profile),
                        "{} {} {} {:?}",
                        n,
                        m,
                        kept,
                        profile
                    );
                }
            }
        }
    }
}

#[test]
fn form_does_not_matter() {
    let dictated = "uh run the big batch on seven hosts";
    let corrections = [
        ("Run the big batch on seven hosts.", true),
        ("run THE \"big\" batch -- on (seven) hosts!", true),
        ("hosts seven on batch big the run", true),
        ("Um, run the big batch, uhh, on seven hosts, erm.", true),
        ("run the small batch on seven hosts", false),
        ("run the big batch on hosts", false),
    ];
    for (corrected, safe) in corrections {
        assert_eq!(is_safe_correction(dictated, corrected, TECHNICAL), safe, "{}", corrected);
        let other = "RUN, the... \"Big\" ERM batch on ? Hosts seven";
        assert_eq!(is_safe_correction(other, corrected, TECHNICAL), safe, "{}", corrected);
    }
}

#[test]
fn words_are_compared_in_lower_case() {
    for word in ["ÀÉÎ", "ΑΣ", "ΣΑΣ", "AΣ", "ΣA", "Straße", "İX", "ǅ"] {
        assert_eq!(compared(word), vec![word.to_lowercase()], "{}", word);
    }
    assert_eq!(compared("Éclair, ÉCLAIR"), vec!["éclair".to_string(), "éclair".to_string()]);
}
