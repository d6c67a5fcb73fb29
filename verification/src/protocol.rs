//! Messages between client and server: texts in JSON.

use crate::dictation::EngineArg;
use crate::text;
use crate::text::{char_list, same_text};
use vstd::prelude::*;

verus! {

/// Whether `serde_json::from_str` reads a text as a `serde_json::Value`.
pub uninterp spec fn is_json(source: Seq<char>) -> bool;

/// The string that `serde_json::Value::get` and `serde_json::Value::as_str` find at a key
/// of the object that a text in JSON stands for.
pub uninterp spec fn json_string(source: Seq<char>, key: Seq<char>) -> Option<Seq<char>>;

/// `serde_json::from_str`, then `serde_json::Value::get` and `serde_json::Value::as_str`:
/// nothing for a text that is not JSON; else the string at the key, if the text is an
/// object with a string there. Both depend on the arguments alone.
#[verifier::external_body]
pub(crate) fn find_string(source: &str, key: &str) -> (r: Option<Option<String>>)
    ensures
        r is Some == is_json(source@),
        r matches Some(found) ==> text::option_text(found) == json_string(source@, key@),
{
    let value: serde_json::Value = match serde_json::from_str(source) {
        Ok(value) => value,
        Err(_) => return None,
    };
    Some(value.get(key).and_then(|field| field.as_str()).map(|found| found.to_owned()))
}

/// The text that the `Display` of a `serde_json::Value` gives for an object with two
/// strings.
pub uninterp spec fn object_text(
    first_key: Seq<char>,
    first: Seq<char>,
    second_key: Seq<char>,
    second: Seq<char>,
) -> Seq<char>;

/// Whether a key is made of small letters of ASCII.
pub open spec fn plain_key(key: Seq<char>) -> bool {
    forall|i: int| 0 <= i < key.len() ==> 'a' <= #[trigger] key[i] <= 'z'
}

/// `serde_json::Map::insert` for two strings into an empty `serde_json::Map`, and the
/// `Display` of the `serde_json::Value::Object` with it: a text in JSON that depends on
/// the arguments alone. Under two different plain keys the strings are found in it again.
#[verifier::external_body]
fn write_object(first_key: &str, first: &str, second_key: &str, second: &str) -> (r: String)
    ensures
        r@ == object_text(first_key@, first@, second_key@, second@),
        is_json(r@),
        plain_key(first_key@) && plain_key(second_key@) && first_key@ != second_key@ ==> {
            &&& json_string(r@, first_key@) == Some(first@)
            &&& json_string(r@, second_key@) == Some(second@)
        },
{
    let mut map = serde_json::Map::new();
    map.insert(first_key.to_owned(), serde_json::Value::String(first.to_owned()));
    map.insert(second_key.to_owned(), serde_json::Value::String(second.to_owned()));
    serde_json::Value::Object(map).to_string()
}

/// The message that sets the language.
pub fn set_language(lang: &str) -> (r: String)
    ensures
        r@ == object_text("type"@, "setlanguage"@, "lang"@, lang@),
        is_json(r@),
        json_string(r@, "type"@) == Some("setlanguage"@),
        json_string(r@, "lang"@) == Some(lang@),
{
    proof {
        reveal_strlit("type");
        reveal_strlit("lang");
        assert("type"@[0] != "lang"@[0]);
    }
    write_object("type", "setlanguage", "lang", lang)
}

/// The message that selects the engine.
pub fn set_engine(engine: EngineArg) -> (r: String)
    ensures
        r@ == object_text("type"@, "setengine"@, "engine"@, engine.name()),
        is_json(r@),
        json_string(r@, "type"@) == Some("setengine"@),
        json_string(r@, "engine"@) == Some(engine.name()),
{
    proof {
        reveal_strlit("type");
        reveal_strlit("engine");
        assert("type"@[0] != "engine"@[0]);
    }
    write_object("type", "setengine", "engine", engine.as_str())
}

/// Whether a word was dictated: it holds a letter or a digit. Others are mere
/// punctuation.
pub open spec fn dictated(word: Seq<char>) -> bool {
    exists|i: int| 0 <= i < word.len() && text::alphanumeric(#[trigger] word[i])
}

/// Tests whether a word was dictated.
pub fn is_dictated(word: &str) -> (r: bool)
    ensures
        r == dictated(word@),
{
    let list = char_list(word);
    let mut i: usize = 0;
    while i < list.len()
        invariant
            i <= list.len(),
            list@ == word@,
            forall|k: int| 0 <= k < i ==> !text::alphanumeric(#[trigger] word@[k]),
        decreases list.len() - i,
    {
        if list[i].is_alphanumeric() {
            assert(text::alphanumeric(word@[i as int]));
            return true;
        }
        i += 1;
    }
    false
}

/// A message of the server.
#[derive(Debug, Clone, PartialEq, Eq)]
pub struct Message {
    /// The kind of the message.
    pub kind: Option<String>,
    /// A transcribed word.
    pub word: Option<String>,
    /// A transcribed text.
    pub text: Option<String>,
}

/// What a message holds.
pub struct MessageModel {
    pub kind: Option<Seq<char>>,
    pub word: Option<Seq<char>>,
    pub text: Option<Seq<char>>,
}

impl View for Message {
    type V = MessageModel;

    open spec fn view(&self) -> MessageModel {
        MessageModel {
            kind: text::option_text(self.kind),
            word: text::option_text(self.word),
            text: text::option_text(self.text),
        }
    }
}

/// What a text of the server says; a text that is not JSON says nothing.
pub open spec fn message_of(source: Seq<char>) -> Option<MessageModel> {
    if is_json(source) {
        Some(
            MessageModel {
                kind: json_string(source, "type"@),
                word: json_string(source, "word"@),
                text: json_string(source, "text"@),
            },
        )
    } else {
        None
    }
}

/// Reads a text of the server.
pub fn read_message(source: &str) -> (r: Option<Message>)
    ensures
        r is Some == message_of(source@) is Some,
        r matches Some(message) ==> Some(message@) == message_of(source@),
{
    let kind = match find_string(source, "type") {
        Some(kind) => kind,
        None => return None,
    };
    let word = match find_string(source, "word") {
        Some(word) => word,
        None => return None,
    };
    let text = match find_string(source, "text") {
        Some(text) => text,
        None => return None,
    };
    Some(Message { kind, word, text })
}

/// What follows a message where nothing is corrected.
#[derive(Debug, PartialEq, Eq)]
pub enum MessageAction {
    /// Type a word and a space.
    Type(String),
    /// Note a completed text.
    Note(String),
    Nothing,
}

/// What an action holds.
pub enum MessageActionModel {
    Type(Seq<char>),
    Note(Seq<char>),
    Nothing,
}

impl View for MessageAction {
    type V = MessageActionModel;

    open spec fn view(&self) -> MessageActionModel {
        match self {
            MessageAction::Type(word) => MessageActionModel::Type(word@),
            MessageAction::Note(noted) => MessageActionModel::Note(noted@),
            MessageAction::Nothing => MessageActionModel::Nothing,
        }
    }
}

impl MessageModel {
    /// What follows: while audio is captured, dictated words are typed and completed texts
    /// noted.
    pub open spec fn action(self, capturing: bool) -> MessageActionModel {
        if !capturing {
            MessageActionModel::Nothing
        } else if self.kind == Some("word"@) && self.word is Some && dictated(self.word->0) {
            MessageActionModel::Type(self.word->0)
        } else if self.kind == Some("final"@) && self.text is Some {
            MessageActionModel::Note(self.text->0)
        } else {
            MessageActionModel::Nothing
        }
    }
}

/// Decides what follows a message where nothing is corrected.
pub fn handle_message(message: Message, capturing: bool) -> (r: MessageAction)
    ensures
        r@ == message@.action(capturing),
{
    proof {
        reveal_strlit("word");
        reveal_strlit("final");
        assert("word"@.len() != "final"@.len());
    }
    if !capturing {
        return MessageAction::Nothing;
    }
    let kind = match message.kind {
        Some(kind) => kind,
        None => return MessageAction::Nothing,
    };
    if same_text(kind.as_str(), "word") {
        if let Some(word) = message.word {
            if is_dictated(word.as_str()) {
                return MessageAction::Type(word);
            }
        }
    } else if same_text(kind.as_str(), "final") {
        if let Some(noted) = message.text {
            return MessageAction::Note(noted);
        }
    }
    MessageAction::Nothing
}

} // verus!
