//! Correction of dictated text by a language model behind an HTTP API.
//!
//! Collects words to sentences, says what is to be asked of the model and what follows
//! from its reply. The request itself is sent elsewhere.

use crate::correction_buffer;
use crate::correction_laws;
use crate::protocol;
use crate::protocol::find_string;
use crate::text;
use crate::text::{ends_with, join_texts, same_text, trim_text, CharClass};
use crate::text_laws;
use vstd::prelude::*;
use vstd::string::*;

verus! {

/// What precedes the text when a chunk is to be corrected.
pub const SENTENCE_PROMPT: &'static str =
    "Fix transcription errors and grammar in this dictated text. Common STT errors: \"bath\"→\"batch\", \"B4\"→\"before\", \"uh\"→remove. Preserve code identifiers, file paths, flags, and casing. Preserve all line breaks exactly. Output ONLY the corrected text, nothing else.\n\nText: ";

/// What precedes the text when a paragraph is to be corrected.
pub const PARAGRAPH_PROMPT: &'static str =
    "Clean up this dictated paragraph. Fix:\n- Transcription errors (bath→batch, B4→before)\n- Grammar and punctuation\n- Remove filler words (uh, um)\n- Fix sentence boundaries\nIMPORTANT: Preserve code identifiers, file paths, flags, and casing. Preserve all line breaks and paragraph structure exactly.\nOutput ONLY the corrected text, preserving meaning.\n\nText: ";

/// The seconds after which a test for the model's presence is given up.
pub const PROBE_TIMEOUT_SECS: u64 = 2;

/// Configuration of the correction. The sampling temperature is set where requests are
/// sent.
#[derive(Debug, Clone)]
pub struct LlmCorrectConfig {
    /// Address of the API.
    pub endpoint: String,
    /// Model for corrections while dictation goes on.
    pub model: String,
    /// Model for corrections of whole paragraphs.
    pub final_model: String,
    /// Seconds after which a request is given up.
    pub timeout_secs: u64,
    /// Most tokens of a correction while dictation goes on.
    pub num_predict_fast: i32,
    /// Most tokens of a correction of a whole paragraph.
    pub num_predict_final: i32,
}

impl Default for LlmCorrectConfig {
    fn default() -> (r: Self)
        ensures
            r.endpoint@ == "http://localhost:11434"@,
            r.model@ == "qwen2.5:14b"@,
            r.final_model@ == "qwen2.5:14b"@,
            r.timeout_secs == 10,
            r.num_predict_fast == 128,
            r.num_predict_final == 512,
    {
        LlmCorrectConfig {
            endpoint: "http://localhost:11434".to_owned(),
            model: "qwen2.5:14b".to_owned(),
            final_model: "qwen2.5:14b".to_owned(),
            timeout_secs: 10,
            num_predict_fast: 128,
            num_predict_final: 512,
        }
    }
}

/// A text, or another in its place where it is missing.
pub open spec fn given_or(given: Option<String>, other: Seq<char>) -> Seq<char> {
    match given {
        Some(given) => given@,
        None => other,
    }
}

impl LlmCorrectConfig {
    /// The configuration that options ask for: a model of its own for each kind of
    /// correction where it is given, else `model` for both.
    pub fn from_options(
        endpoint: Option<String>,
        model: String,
        fast_model: Option<String>,
        final_model: Option<String>,
        num_predict_fast: i32,
        num_predict_final: i32,
    ) -> (r: Self)
        ensures
            r.endpoint@ == given_or(endpoint, "http://localhost:11434"@),
            r.model@ == given_or(fast_model, model@),
            r.final_model@ == given_or(final_model, model@),
            r.timeout_secs == 10,
            r.num_predict_fast == num_predict_fast,
            r.num_predict_final == num_predict_final,
    {
        LlmCorrectConfig {
            endpoint: match endpoint {
                Some(endpoint) => endpoint,
                None => "http://localhost:11434".to_owned(),
            },
            model: match fast_model {
                Some(fast) => fast,
                None => model.clone(),
            },
            final_model: match final_model {
                Some(last) => last,
                None => model,
            },
            timeout_secs: 10,
            num_predict_fast,
            num_predict_final,
        }
    }
}

/// A request to the model.
#[derive(Debug, Clone)]
pub struct LlmRequest {
    pub url: String,
    pub model: String,
    pub prompt: String,
    /// Whether the reply comes in pieces.
    pub stream: bool,
    pub num_predict: i32,
}

/// What a corrector holds.
#[verifier::ext_equal]
pub struct CorrectorModel {
    /// The words since the last sentence.
    pub words: Seq<Seq<char>>,
    /// The number of words that were typed and not corrected yet.
    pub typed: nat,
}

impl CorrectorModel {
    /// Whether a word completes a sentence of at least two words.
    pub open spec fn completes(self, word: Seq<char>) -> bool {
        correction_buffer::ends_sentence(word) && self.words.len() >= 1
    }

    /// With one more word, which is typed unless it completes a sentence.
    pub open spec fn with_word(self, word: Seq<char>) -> CorrectorModel {
        CorrectorModel {
            words: self.words.push(word),
            typed: if self.completes(word) {
                self.typed
            } else {
                self.typed + 1
            },
        }
    }

    /// The words so far as text.
    pub open spec fn pending_text(self) -> Seq<char> {
        text::sentence(self.words)
    }

    /// Without words.
    pub open spec fn emptied(self, typed: nat) -> CorrectorModel {
        CorrectorModel { words: Seq::empty(), typed }
    }
}

/// What follows a word.
#[derive(Debug, PartialEq, Eq)]
pub enum WordStep {
    /// The word is to be typed.
    Type,
    /// The sentence is complete and its correction is to be asked for.
    Correct(String),
}

/// What a corrected sentence leads to: whether the completing word is to be typed, and how
/// many words are to be taken back for which text.
pub type SentenceOutcome = (bool, Option<(usize, String)>);

/// Collects words and corrects complete sentences.
#[derive(Debug)]
pub struct SentenceCorrector {
    pub config: LlmCorrectConfig,
    pub buffer: Vec<String>,
    /// Words that were typed and not corrected yet.
    pub typed_count: usize,
}

impl View for SentenceCorrector {
    type V = CorrectorModel;

    open spec fn view(&self) -> CorrectorModel {
        CorrectorModel { words: text::texts(self.buffer@), typed: self.typed_count as nat }
    }
}

impl SentenceCorrector {
    /// A corrector without words.
    pub fn new(config: LlmCorrectConfig) -> (r: Self)
        ensures
            r.config == config,
            r@ == (CorrectorModel { words: Seq::empty(), typed: 0 }),
    {
        let r = SentenceCorrector { config, buffer: Vec::new(), typed_count: 0 };
        assert(r@ =~= CorrectorModel { words: Seq::empty(), typed: 0 });
        r
    }

    /// Adds a word. A word that completes a sentence is not typed; the sentence is to be
    /// corrected, and `resolve_word` takes the reply.
    pub fn add_word(&mut self, word: &str) -> (r: WordStep)
        requires
            old(self).typed_count < usize::MAX,
        ensures
            final(self)@ == old(self)@.with_word(word@),
            final(self).config == old(self).config,
            match r {
                WordStep::Correct(sentence) => {
                    &&& old(self)@.completes(word@)
                    &&& sentence@ == final(self)@.pending_text()
                },
                WordStep::Type => !old(self)@.completes(word@),
            },
    {
        let owned = word.to_owned();
        proof {
            text::lemma_texts_push(self.buffer@, owned);
        }
        self.buffer.push(owned);
        let core = trim_text(word, CharClass::WhiteSpace);
        let core = core.as_str();
        let ends = ends_with(core, '.') || ends_with(core, '?') || ends_with(core, '!');
        if ends && self.buffer.len() >= 2 {
            assert(self@ =~= old(self)@.with_word(word@));
            proof {
                reveal_strlit(" ");
                assert(" "@ =~= seq![' ']);
            }
            WordStep::Correct(join_texts(&self.buffer, " "))
        } else {
            self.typed_count += 1;
            assert(self@ =~= old(self)@.with_word(word@));
            WordStep::Type
        }
    }

    /// Takes the reply for a complete sentence. Without a reply nothing changes. A different
    /// text replaces the typed words; the same text leaves them, and the completing word is
    /// typed.
    pub fn resolve_word<E>(&mut self, original: &str, reply: Result<String, E>) -> (r: Result<
        SentenceOutcome,
        E,
    >)
        ensures
            final(self).config == old(self).config,
            match reply {
                Err(error) => r == Err::<SentenceOutcome, E>(error) && final(self)@ == old(self)@,
                Ok(corrected) => if corrected@ == original@ {
                    &&& r == Ok::<SentenceOutcome, E>((true, None))
                    &&& final(self)@ == old(self)@.emptied(1)
                } else {
                    &&& r == Ok::<SentenceOutcome, E>(
                        (false, Some((old(self).typed_count, corrected))),
                    )
                    &&& final(self)@ == old(self)@.emptied(0)
                },
            },
            r is Ok <==> reply is Ok,
            r matches Ok(outcome) ==> {
                &&& final(self)@.words.len() == 0
                &&& outcome.0 <==> outcome.1 is None
                &&& outcome.1 matches Some(change) ==> change.1@ == (reply->Ok_0)@ && change.0
                    == old(self).typed_count && change.1@ != original@
            },
    {
        let corrected = match reply {
            Ok(corrected) => corrected,
            Err(error) => return Err(error),
        };
        let back: usize = self.typed_count;
        self.buffer.clear();
        self.typed_count = 0;
        if !same_text(corrected.as_str(), original) {
            assert(self@ =~= old(self)@.emptied(0));
            Ok((false, Some((back, corrected))))
        } else {
            self.typed_count = 1;
            assert(self@ =~= old(self)@.emptied(1));
            Ok((true, None))
        }
    }

    /// The text of the remaining words, for the end of the stream. `resolve_flush` takes the
    /// reply.
    pub fn flush(&self) -> (r: Option<String>)
        ensures
            text::option_text(r) == if self@.words.len() == 0 {
                None
            } else {
                Some(self@.pending_text())
            },
            r is Some && text_laws::all_words(self@.words) ==> text::words((r->0)@) == self@.words,
    {
        if self.buffer.len() == 0 {
            return None;
        }
        proof {
            reveal_strlit(" ");
            assert(" "@ =~= seq![' ']);
            if text_laws::all_words(self@.words) {
                text_laws::law_words_of_sentence(self@.words);
            }
        }
        Some(join_texts(&self.buffer, " "))
    }

    /// Takes the reply for the remaining words. Without a reply nothing changes.
    pub fn resolve_flush<E>(&mut self, original: &str, reply: Result<String, E>) -> (r: Result<
        Option<(usize, String)>,
        E,
    >)
        ensures
            final(self).config == old(self).config,
            match reply {
                Err(error) => {
                    &&& r == Err::<Option<(usize, String)>, E>(error)
                    &&& final(self)@ == old(self)@
                },
                Ok(corrected) => {
                    &&& r == Ok::<Option<(usize, String)>, E>(
                        if corrected@ == original@ {
                            None
                        } else {
                            Some((old(self).typed_count, corrected))
                        },
                    )
                    &&& final(self)@ == old(self)@.emptied(0)
                },
            },
    {
        let corrected = match reply {
            Ok(corrected) => corrected,
            Err(error) => return Err(error),
        };
        let back: usize = self.typed_count;
        self.buffer.clear();
        self.typed_count = 0;
        assert(self@ =~= old(self)@.emptied(0));
        if !same_text(corrected.as_str(), original) {
            Ok(Some((back, corrected)))
        } else {
            Ok(None)
        }
    }

    /// The request for the correction of a chunk.
    pub fn correct_sentence(&self, sentence: &str) -> (r: LlmRequest)
        ensures
            r.url@ == self.config.endpoint@ + "/api/generate"@,
            r.model@ == self.config.model@,
            r.prompt@ == SENTENCE_PROMPT@ + sentence@,
            r.prompt@.len() >= sentence@.len(),
            r.prompt@.skip(r.prompt@.len() - sentence@.len()) == sentence@,
            !r.stream,
            r.num_predict == self.config.num_predict_fast,
    {
        let mut prompt = SENTENCE_PROMPT.to_owned();
        prompt.append(sentence);
        assert(prompt@.skip(prompt@.len() - sentence@.len()) =~= sentence@);
        self.request(prompt, self.config.model.as_str(), self.config.num_predict_fast)
    }

    /// The request for the correction of a paragraph.
    pub fn correct_paragraph(&self, paragraph: &str) -> (r: LlmRequest)
        ensures
            r.url@ == self.config.endpoint@ + "/api/generate"@,
            r.model@ == self.config.final_model@,
            r.prompt@ == PARAGRAPH_PROMPT@ + paragraph@,
            r.prompt@.len() >= paragraph@.len(),
            r.prompt@.skip(r.prompt@.len() - paragraph@.len()) == paragraph@,
            !r.stream,
            r.num_predict == self.config.num_predict_final,
    {
        let mut prompt = PARAGRAPH_PROMPT.to_owned();
        prompt.append(paragraph);
        assert(prompt@.skip(prompt@.len() - paragraph@.len()) =~= paragraph@);
        self.request(prompt, self.config.final_model.as_str(), self.config.num_predict_final)
    }

    /// A request whose reply comes as a whole.
    fn request(&self, prompt: String, model: &str, num_predict: i32) -> (r: LlmRequest)
        ensures
            r.url@ == self.config.endpoint@ + "/api/generate"@,
            r.model@ == model@,
            r.prompt == prompt,
            !r.stream,
            r.num_predict == num_predict,
    {
        let mut url = self.config.endpoint.clone();
        url.append("/api/generate");
        LlmRequest { url, model: model.to_owned(), prompt, stream: false, num_predict }
    }
}

/// Why a correction is not to be had.
#[derive(Debug, PartialEq, Eq)]
pub enum LlmError {
    /// The request could not be sent.
    NotSent,
    /// The request was refused, with a status and an explanation.
    Status(u16, String),
    /// The reply could not be read.
    Unreadable,
}

/// What came of a request.
#[derive(Debug)]
pub enum Exchange {
    /// It could not be sent.
    NotSent,
    /// It was answered with a status and a body, which may be unreadable or hold a reply.
    Answered { status: u16, body: Option<String>, reply: Option<String> },
}

/// The reply that the body of an answer holds: the string at `response` in an object in JSON.
pub open spec fn reply_in(body: Seq<char>) -> Option<Seq<char>> {
    if protocol::is_json(body) {
        protocol::json_string(body, "response"@)
    } else {
        None
    }
}

/// The reply that the body of an answer holds, if it holds one.
pub fn read_reply(body: &str) -> (r: Option<String>)
    ensures
        text::option_text(r) == reply_in(body@),
{
    match find_string(body, "response") {
        Some(found) => found,
        None => None,
    }
}

/// What came of a request that was answered with a status and a body, if the latter is
/// readable.
pub fn read_answer(status: u16, body: Option<String>) -> (r: Exchange)
    ensures
        r matches Exchange::Answered { status: given, body: kept, reply } && {
            &&& given == status
            &&& kept == body
            &&& text::option_text(reply) == match body {
                Some(body) => reply_in(body@),
                None => None,
            }
        },
{
    let reply = match &body {
        Some(body) => read_reply(body.as_str()),
        None => None,
    };
    Exchange::Answered { status, body, reply }
}

/// The correction that came of a request: the text of the reply where the status is one of
/// success.
pub fn finish_request(exchange: Exchange) -> (r: Result<String, LlmError>)
    ensures
        match exchange {
            Exchange::NotSent => r matches Err(LlmError::NotSent),
            Exchange::Answered { status, body, reply } => if !(200 <= status < 300) {
                r matches Err(LlmError::Status(code, explanation)) && code == status
                    && explanation@ == given_or(body, Seq::empty())
            } else {
                match reply {
                    Some(reply) => r matches Ok(corrected) && corrected@ == cleaned(reply@),
                    None => r matches Err(LlmError::Unreadable),
                }
            },
        },
        r is Ok <==> (exchange matches Exchange::Answered { status, body, reply } && 200 <= status
            <= 299 && reply is Some),
        r matches Ok(corrected) ==> exchange->reply is Some && correction_laws::stretch_of_reply(
            (exchange->reply->0)@,
            corrected@,
        ),
{
    match exchange {
        Exchange::NotSent => Err(LlmError::NotSent),
        Exchange::Answered { status, body, reply } => {
            if status < 200 || status >= 300 {
                return Err(
                    LlmError::Status(
                        status,
                        match body {
                            Some(body) => body,
                            None => String::new(),
                        },
                    ),
                );
            }
            match reply {
                Some(reply) => {
                    proof {
                        correction_laws::law_reply_is_a_stretch(reply@);
                    }
                    Ok(clean_response(reply.as_str()))
                },
                None => Err(LlmError::Unreadable),
            }
        },
    }
}

/// The text of a reply: without white space at its ends, and then without quotation marks.
pub open spec fn cleaned(reply: Seq<char>) -> Seq<char> {
    text::trimmed(text::trimmed(reply, CharClass::WhiteSpace), CharClass::Quote)
}

/// The text of a reply.
pub fn clean_response(reply: &str) -> (r: String)
    ensures
        r@ == cleaned(reply@),
{
    let core = trim_text(reply, CharClass::WhiteSpace);
    trim_text(core.as_str(), CharClass::Quote)
}

/// The address that answers where the model is available.
pub fn probe_url(endpoint: &str) -> (r: String)
    ensures
        r@ == endpoint@ + "/api/tags"@,
{
    let mut url = endpoint.to_owned();
    url.append("/api/tags");
    url
}

/// A corrector after several words.
pub open spec fn after_words(corrector: CorrectorModel, words: Seq<Seq<char>>) -> CorrectorModel
    decreases words.len(),
{
    if words.len() == 0 {
        corrector
    } else {
        after_words(corrector, words.drop_last()).with_word(words.last())
    }
}

/// A sentence is asked for as a whole, and as many words are to be taken back as were typed:
/// all but the one that completed it.
pub proof fn law_sentences_are_asked_for_whole(words: Seq<Seq<char>>, last: Seq<char>)
    requires
        words.len() > 0,
        forall|i: int|
            1 <= i < words.len() ==> !correction_buffer::ends_sentence(#[trigger] words[i]),
        correction_buffer::ends_sentence(last),
    ensures
        ({
            let before = after_words(CorrectorModel { words: Seq::empty(), typed: 0 }, words);
            &&& before.completes(last)
            &&& before.with_word(last).pending_text() == text::sentence(words.push(last))
            &&& before.with_word(last).typed == words.len()
        }),
{
    lemma_words_collected(words);
}

/// Words that complete no sentence are collected and typed.
proof fn lemma_words_collected(words: Seq<Seq<char>>)
    requires
        forall|i: int|
            1 <= i < words.len() ==> !correction_buffer::ends_sentence(#[trigger] words[i]),
    ensures
        ({
            let after = after_words(CorrectorModel { words: Seq::empty(), typed: 0 }, words);
            after.words == words && after.typed == words.len()
        }),
    decreases words.len(),
{
    if words.len() > 0 {
        let less = words.drop_last();
        assert forall|i: int| 1 <= i < less.len() implies !correction_buffer::ends_sentence(
            #[trigger] less[i],
        ) by {
            assert(less[i] == words[i]);
        }
        lemma_words_collected(less);
        assert(less.push(words.last()) =~= words);
        if words.len() > 1 {
            assert(!correction_buffer::ends_sentence(words[words.len() - 1]));
        }
    } else {
        assert(words =~= Seq::empty());
    }
}

/// The text of a reply neither starts nor ends with a quotation mark.
pub proof fn law_replies_have_clean_ends(reply: Seq<char>)
    ensures
        cleaned(reply).len() > 0 ==> cleaned(reply).first() != '"' && cleaned(reply).last()
            != '"',
        text::trimmed(cleaned(reply), CharClass::Quote) == cleaned(reply),
{
    crate::text_laws::law_trimmed_ends(
        text::trimmed(reply, CharClass::WhiteSpace),
        CharClass::Quote,
    );
}

} // verus!
