//! When chunks are complete, what the correction buffer remembers, and what is taken of a
//! reply.

use crate::correction_buffer;
use crate::correction_buffer::{CorrectionModel, CorrectionProfile};
use crate::llm_correct;
use crate::text;
use crate::text::CharClass;
use crate::text_laws;
use vstd::prelude::*;

verus! {

/// Whether a place of a word holds its last character that is not white space.
pub open spec fn last_visible(word: Seq<char>, place: int) -> bool {
    &&& 0 <= place < word.len()
    &&& !text::white_space(word[place])
    &&& forall|i: int| place < i < word.len() ==> text::white_space(#[trigger] word[i])
}

/// A word ends a sentence exactly where its last visible character is a full stop, a question
/// mark or an exclamation mark, and a clause where it is a comma or a semicolon.
pub proof fn law_ends_of_sentences_and_clauses(word: Seq<char>)
    ensures
        correction_buffer::ends_sentence(word) <==> exists|place: int|
            last_visible(word, place) && (word[place] == '.' || word[place] == '?' || word[place]
                == '!'),
        correction_buffer::ends_clause(word) <==> exists|place: int|
            last_visible(word, place) && (word[place] == ',' || word[place] == ';'),
{
    let class = CharClass::WhiteSpace;
    let core = text::trimmed(word, class);
    text_laws::law_trimmed_is_a_stretch(word, class);
    let (from, to) = choose|from: int, to: int|
        text_laws::stretch_between(word, core, class, from, to);
    text_laws::law_trimmed_ends(word, class);
    if core.len() > 0 {
        assert(core.last() == word[to - 1]);
        assert(last_visible(word, to - 1));
    }
    assert forall|place: int| last_visible(word, place) implies core.len() > 0 && core.last()
        == word[place] by {
        text_laws::law_trimmed_last(word, place, class);
    }
}

/// Where chunks are collected, a word with punctuation at its end completes the chunk, whatever
/// number of words it has; so do six words, and nothing else does.
pub proof fn law_punctuation_completes_a_chunk(
    buffer: CorrectionModel,
    word: Seq<char>,
    place: int,
)
    ensures
        buffer.chunks && last_visible(word, place) && (word[place] == '.' || word[place] == '?'
            || word[place] == '!' || word[place] == ',' || word[place] == ';')
            ==> buffer.chunk_complete(word),
        buffer.chunks && buffer.chunk.len() >= 6 ==> buffer.chunk_complete(word),
        !buffer.chunks ==> !buffer.chunk_complete(word),
        buffer.chunk.len() < 6 && last_visible(word, place) && word[place] != '.' && word[place]
            != '?' && word[place] != '!' && word[place] != ',' && word[place] != ';'
            ==> !buffer.chunk_complete(word),
        buffer.chunk.len() < 6 && (forall|i: int|
            0 <= i < word.len() ==> text::white_space(#[trigger] word[i]))
            ==> !buffer.chunk_complete(word),
{
    law_ends_of_sentences_and_clauses(word);
    if last_visible(word, place) {
        assert forall|other: int| last_visible(word, other) implies other == place by {
            if other < place {
                assert(text::white_space(word[place]));
            } else if place < other {
                assert(text::white_space(word[other]));
            }
        }
    }
}

/// A buffer with several more words.
pub open spec fn with_all(buffer: CorrectionModel, words: Seq<Seq<char>>) -> CorrectionModel
    decreases words.len(),
{
    if words.len() == 0 {
        buffer
    } else {
        with_all(buffer, words.drop_last()).with_word(words.last())
    }
}

/// A buffer remembers all words in their order: the paragraph in either profile, the chunk
/// where chunks are collected, which is in technical text.
pub proof fn law_all_words_are_remembered(profile: CorrectionProfile, words: Seq<Seq<char>>)
    ensures
        with_all(CorrectionModel::start(profile), words).paragraph == words,
        with_all(CorrectionModel::start(profile), words).chunks <==> profile
            == CorrectionProfile::Technical,
        profile == CorrectionProfile::Technical ==> with_all(
            CorrectionModel::start(profile),
            words,
        ).chunk == words,
        profile == CorrectionProfile::Journal ==> with_all(
            CorrectionModel::start(profile),
            words,
        ).chunk.len() == 0,
    decreases words.len(),
{
    if words.len() == 0 {
        assert(words =~= Seq::empty());
    } else {
        law_all_words_are_remembered(profile, words.drop_last());
        assert(words.drop_last().push(words.last()) =~= words);
    }
}

/// To take the chunk leaves the paragraph; to take the paragraph leaves nothing; neither
/// changes what is collected.
pub proof fn law_taking_leaves(buffer: CorrectionModel)
    ensures
        buffer.without_chunk().chunk.len() == 0,
        buffer.without_chunk().paragraph == buffer.paragraph,
        buffer.without_chunk().chunks == buffer.chunks,
        buffer.emptied().chunk.len() == 0,
        buffer.emptied().paragraph.len() == 0,
        buffer.emptied().chunks == buffer.chunks,
{
}

/// A correction of more words than there are loses none, and no correction changes the chunk.
pub proof fn law_correction_of_too_many_words(
    buffer: CorrectionModel,
    original: Seq<Seq<char>>,
    corrected: Seq<char>,
)
    ensures
        original.len() > buffer.paragraph.len() ==> buffer.corrected(original, corrected).paragraph
            == buffer.paragraph + text::words(corrected),
        buffer.corrected(original, corrected).chunk == buffer.chunk,
        buffer.corrected(original, corrected).chunks == buffer.chunks,
{
}

/// The words of a chunk or paragraph are read back from its text.
pub proof fn law_taken_text_holds_the_words(words: Seq<Seq<char>>)
    requires
        text_laws::all_words(words),
    ensures
        text::words(text::sentence(words)) == words,
        words.len() > 0 ==> text::sentence(words).len() + 1 == text_laws::place_of(
            words,
            1,
            words.len() as int,
        ),
{
    text_laws::law_words_of_sentence(words);
    if words.len() > 0 {
        text_laws::law_join_holds_every_part(words, seq![' ']);
    }
}

/// Whether a character may be taken off the ends of a reply.
#[verifier::opaque]
pub open spec fn removable(c: char) -> bool {
    text::white_space(c) || c == '"'
}

/// White space and quotation marks are what may be taken off.
pub proof fn law_removable_characters(c: char)
    ensures
        removable(c) <==> text::white_space(c) || c == '"',
{
    reveal(removable);
}

/// The text of a reply is one stretch of it, and all that stands before and after the stretch
/// is white space or a quotation mark.
pub proof fn law_reply_is_a_stretch(reply: Seq<char>)
    ensures
        stretch_of_reply(reply, llm_correct::cleaned(reply)),
{
    reveal(removable);
    let core = text::trimmed(reply, CharClass::WhiteSpace);
    let clean = text::trimmed(core, CharClass::Quote);
    text_laws::law_trimmed_is_a_stretch(reply, CharClass::WhiteSpace);
    text_laws::law_trimmed_is_a_stretch(core, CharClass::Quote);
    let (a, b) = choose|a: int, b: int|
        text_laws::stretch_between(reply, core, CharClass::WhiteSpace, a, b);
    let (c, d) = choose|c: int, d: int|
        text_laws::stretch_between(core, clean, CharClass::Quote, c, d);
    assert(clean =~= reply.subrange(a + c, a + d));
    assert forall|i: int| 0 <= i < a + c || a + d <= i < reply.len() implies removable(
        #[trigger] reply[i],
    ) by {
        if a <= i < b {
            assert(core[i - a] == reply[i]);
            assert(CharClass::Quote.holds(core[i - a]));
        } else {
            assert(CharClass::WhiteSpace.holds(reply[i]));
        }
    }
    assert(reply_between(reply, llm_correct::cleaned(reply), a + c, a + d));
}

/// A reply with neither white space nor a quotation mark at its ends is taken as it is.
pub proof fn law_plain_reply_is_kept(reply: Seq<char>)
    requires
        reply.len() > 0,
        !removable(reply.first()),
        !removable(reply.last()),
    ensures
        llm_correct::cleaned(reply) == reply,
{
    law_reply_is_a_stretch(reply);
    let (from, to) = choose|from: int, to: int|
        reply_between(reply, llm_correct::cleaned(reply), from, to);
    let end = reply.len() - 1;
    if from > 0 {
        assert(removable(reply[0]));
    }
    if to < reply.len() {
        assert(removable(reply[end]));
    }
    assert(reply.subrange(0, reply.len() as int) =~= reply);
}

/// Whether a text is a stretch of a reply with nothing but white space and quotation marks
/// around it.
pub open spec fn stretch_of_reply(reply: Seq<char>, core: Seq<char>) -> bool {
    exists|from: int, to: int| reply_between(reply, core, from, to)
}

/// Whether a text is the stretch of a reply between two places, and all that stands before and
/// after it is white space or a quotation mark.
pub open spec fn reply_between(reply: Seq<char>, core: Seq<char>, from: int, to: int) -> bool {
    &&& 0 <= from <= to <= reply.len()
    &&& core == reply.subrange(from, to)
    &&& forall|i: int| 0 <= i < from || to <= i < reply.len() ==> removable(#[trigger] reply[i])
}

/// White space around a reply and then quotation marks around it are taken off, and nothing
/// more: white space within quotation marks stays.
pub proof fn law_reply_within_quotation_marks(
    before: Seq<char>,
    opening: Seq<char>,
    core: Seq<char>,
    closing: Seq<char>,
    after: Seq<char>,
)
    requires
        text_laws::all_of(before, CharClass::WhiteSpace),
        text_laws::all_of(after, CharClass::WhiteSpace),
        text_laws::all_of(opening, CharClass::Quote),
        text_laws::all_of(closing, CharClass::Quote),
        core.len() > 0,
        core.first() != '"',
        core.last() != '"',
        opening.len() > 0 || !text::white_space(core.first()),
        closing.len() > 0 || !text::white_space(core.last()),
    ensures
        llm_correct::cleaned(before + (opening + core + closing) + after) == core,
{
    let quoted = opening + core + closing;
    if opening.len() > 0 {
        assert(CharClass::Quote.holds(opening[0]));
        assert(quoted.first() == opening[0]);
    } else {
        assert(quoted.first() == core.first());
    }
    if closing.len() > 0 {
        assert(CharClass::Quote.holds(closing[closing.len() - 1]));
        assert(quoted.last() == closing.last());
    } else {
        assert(quoted.last() == core.last());
    }
    text_laws::law_trim_leaves_the_core(before, quoted, after, CharClass::WhiteSpace);
    text_laws::law_trim_leaves_the_core(opening, core, closing, CharClass::Quote);
}

} // verus!
