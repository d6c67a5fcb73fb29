//! Decides whether a corrected text is close enough to what was dictated.

use crate::correction_buffer::CorrectionProfile;
use crate::text;
use crate::text::{lower_ascii, same_text, split_words, trim_text, CharClass};
use vstd::hash_set::StringHashSet;
use vstd::prelude::*;

verus! {

/// A word as it is compared: without punctuation at its ends, in lower case. The capitals
/// of ASCII are lowered first, so that their case never matters beside other letters.
pub open spec fn normalized(word: Seq<char>) -> Seq<char> {
    text::lowercase(text::ascii_lowered(text::trimmed(word, CharClass::NotAlphanumeric)))
}

/// The sounds of hesitation, which are not compared.
pub open spec fn filler(word: Seq<char>) -> bool {
    ||| word == "uh"@
    ||| word == "um"@
    ||| word == "erm"@
    ||| word == "uhh"@
    ||| word == "umm"@
}

/// Whether a normalized word takes part in the comparison.
pub open spec fn counts(word: Seq<char>) -> bool {
    word.len() > 0 && !filler(word)
}

/// The words of a list that are compared, as they are compared and in order.
pub open spec fn comparable(words: Seq<Seq<char>>) -> Seq<Seq<char>> {
    words.map_values(|w: Seq<char>| normalized(w)).filter(|w: Seq<char>| counts(w))
}

/// The words of a text that are compared, in order.
pub open spec fn compared_words(source: Seq<char>) -> Seq<Seq<char>> {
    comparable(text::words(source))
}

/// The smallest and the largest accepted number of words, in hundredths of the
/// number of dictated words.
pub open spec fn length_range(profile: CorrectionProfile) -> (int, int) {
    match profile {
        CorrectionProfile::Journal => (95, 105),
        CorrectionProfile::Technical => (90, 110),
    }
}

/// The share of distinct dictated words that must survive, in hundredths. Texts of
/// up to three distinct words have a share of their own.
pub open spec fn overlap_share(profile: CorrectionProfile, distinct: nat) -> int {
    if distinct <= 3 {
        70
    } else {
        match profile {
            CorrectionProfile::Journal => 95,
            CorrectionProfile::Technical => 90,
        }
    }
}

/// Whether a correction with the compared words `corrected` is acceptable for a
/// dictation with the compared words `original`.
pub open spec fn similar(
    original: Seq<Seq<char>>,
    corrected: Seq<Seq<char>>,
    profile: CorrectionProfile,
) -> bool {
    let range = length_range(profile);
    let distinct = original.to_set();
    let kept = distinct.intersect(corrected.to_set());
    &&& original.len() > 0
    &&& corrected.len() > 0
    &&& range.0 * original.len() <= 100 * corrected.len() <= range.1 * original.len()
    &&& overlap_share(profile, distinct.len()) * distinct.len() <= 100 * kept.len()
}

/// Tests for a sound of hesitation.
fn is_filler(word: &str) -> (r: bool)
    ensures
        r == filler(word@),
{
    same_text(word, "uh") || same_text(word, "um") || same_text(word, "erm") || same_text(
        word,
        "uhh",
    ) || same_text(word, "umm")
}

/// The words of a text that are compared.
pub fn compared(source: &str) -> (r: Vec<String>)
    ensures
        text::texts(r@) == compared_words(source@),
{
    let all = split_words(source);
    let mut kept: Vec<String> = Vec::new();
    let ghost norm = text::words(source@).map_values(|w: Seq<char>| normalized(w));
    let ghost pred = |w: Seq<char>| counts(w);
    proof {
        reveal(Seq::filter);
        assert(text::texts(kept@) =~= norm.take(0).filter(pred));
    }
    let mut i: usize = 0;
    while i < all.len()
        invariant
            i <= all.len(),
            text::texts(all@) == text::words(source@),
            norm == text::words(source@).map_values(|w: Seq<char>| normalized(w)),
            pred == (|w: Seq<char>| counts(w)),
            norm.len() == all@.len(),
            text::texts(kept@) == norm.take(i as int).filter(pred),
        decreases all.len() - i,
    {
        let core = trim_text(all[i].as_str(), CharClass::NotAlphanumeric);
        let word = lower_ascii(core.as_str()).as_str().to_lowercase();
        proof {
            assert(text::texts(all@)[i as int] == all@[i as int]@);
            assert(word@ == norm[i as int]);
            assert(norm.take(i + 1) =~= norm.take(i as int).push(word@));
            norm.take(i as int).lemma_filter_push(word@, pred);
            text::lemma_texts_push(kept@, word);
        }
        if !word.as_str().is_empty() && !is_filler(word.as_str()) {
            kept.push(word);
        }
        i += 1;
    }
    assert(norm.take(norm.len() as int) =~= norm);
    kept
}

/// The distinct members of a list.
fn distinct_words(list: &Vec<String>) -> (r: StringHashSet)
    ensures
        r@ == text::texts(list@).to_set(),
{
    let mut set = StringHashSet::new();
    let mut i: usize = 0;
    assert(text::texts(list@).take(0).to_set() =~= Set::empty());
    while i < list.len()
        invariant
            i <= list.len(),
            set@ == text::texts(list@).take(i as int).to_set(),
        decreases list.len() - i,
    {
        proof {
            let word = list@[i as int]@;
            assert(text::texts(list@).take(i + 1) =~= text::texts(list@).take(i as int).push(word));
            text::texts(list@).take(i as int).lemma_push_to_set_commute(word);
        }
        set.insert(list[i].clone());
        i += 1;
    }
    assert(text::texts(list@).take(list@.len() as int) =~= text::texts(list@));
    set
}

/// The number of distinct members of the first list that are in the second.
fn overlap_count(first: &Vec<String>, second: &StringHashSet) -> (r: usize)
    ensures
        r == text::texts(first@).to_set().intersect(second@).len(),
{
    let mut common = StringHashSet::new();
    let mut i: usize = 0;
    assert(text::texts(first@).take(0).to_set().intersect(second@) =~= Set::empty());
    while i < first.len()
        invariant
            i <= first.len(),
            common@ == text::texts(first@).take(i as int).to_set().intersect(second@),
        decreases first.len() - i,
    {
        let ghost before = text::texts(first@).take(i as int);
        let ghost word = first@[i as int]@;
        proof {
            assert(text::texts(first@).take(i + 1) =~= before.push(word));
            before.lemma_push_to_set_commute(word);
            assert(before.to_set().insert(word).intersect(second@) =~= if second@.contains(word) {
                before.to_set().intersect(second@).insert(word)
            } else {
                before.to_set().intersect(second@)
            });
        }
        if second.contains(first[i].as_str()) {
            common.insert(first[i].clone());
        }
        i += 1;
    }
    assert(text::texts(first@).take(first@.len() as int) =~= text::texts(first@));
    common.len()
}

/// Decides whether two lists of compared words are close enough.
pub fn is_similar(
    original: &Vec<String>,
    corrected: &Vec<String>,
    profile: CorrectionProfile,
) -> (r: bool)
    ensures
        r == similar(text::texts(original@), text::texts(corrected@), profile),
{
    if original.len() == 0 || corrected.len() == 0 {
        return false;
    }
    let (least, most, base): (u128, u128, u128) = match profile {
        CorrectionProfile::Journal => (95, 105, 95),
        CorrectionProfile::Technical => (90, 110, 90),
    };
    let dictated: u128 = original.len() as u128;
    let returned: u128 = corrected.len() as u128;
    if returned * 100 > dictated * most || returned * 100 < dictated * least {
        return false;
    }
    let distinct = distinct_words(original);
    let present = distinct_words(corrected);
    let kept: usize = overlap_count(original, &present);
    let total: usize = distinct.len();
    let share: u128 = if total <= 3 { 70 } else { base };
    kept as u128 * 100 >= total as u128 * share
}

/// Decides whether a correction may replace what was dictated.
pub fn is_safe_correction(original: &str, corrected: &str, profile: CorrectionProfile) -> (r: bool)
    ensures
        r == similar(compared_words(original@), compared_words(corrected@), profile),
{
    let before = compared(original);
    let after = compared(corrected);
    is_similar(&before, &after, profile)
}

/// A text with words to compare is acceptable in its own place.
pub proof fn law_same_words_are_accepted(words: Seq<Seq<char>>, profile: CorrectionProfile)
    requires
        words.len() > 0,
    ensures
        similar(words, words, profile),
{
    assert(words.to_set().intersect(words.to_set()) =~= words.to_set());
}

/// What is accepted for prose is accepted for technical text.
pub proof fn law_prose_is_stricter(original: Seq<Seq<char>>, corrected: Seq<Seq<char>>)
    requires
        similar(original, corrected, CorrectionProfile::Journal),
    ensures
        similar(original, corrected, CorrectionProfile::Technical),
{
}

/// A short dictation keeps its number of compared words: in prose below twenty words, in
/// technical text below ten.
pub proof fn law_short_dictation_keeps_its_length(
    original: Seq<Seq<char>>,
    corrected: Seq<Seq<char>>,
    profile: CorrectionProfile,
)
    requires
        similar(original, corrected, profile),
        original.len() < match profile {
            CorrectionProfile::Journal => 20nat,
            CorrectionProfile::Technical => 10nat,
        },
    ensures
        corrected.len() == original.len(),
{
}

} // verus!
