//! Messages to and from the server.

use ears::dictation::EngineArg;
use ears::protocol::{
    handle_message, is_dictated, read_message, set_engine, set_language, Message, MessageAction,
};

fn message(kind: Option<&str>, word: Option<&str>, text: Option<&str>) -> Message {
    Message {
        kind: kind.map(|s| s.to_string()),
        word: word.map(|s| s.to_string()),
        text: text.map(|s| s.to_string()),
    }
}

#[test]
fn messages_are_read() {
    let source = r#"{"type":"word","word":"hé \"there\"","start":1.5}"#;
    assert_eq!(read_message(source), Some(message(Some("word"), Some("hé \"there\""), None)));
    let source = r#" {"type":"final","text":"all","words":[{"word":"x"}]} "#;
    assert_eq!(read_message(source), Some(message(Some("final"), None, Some("all"))));
    assert_eq!(read_message(r#"{"word":7,"type":null}"#), Some(message(None, None, None)));
    assert_eq!(read_message(r#"{"word":"a","word":"b"}"#), Some(message(None, Some("b"), None)));
    assert_eq!(read_message(r#"["word"]"#), Some(message(None, None, None)));
    assert_eq!(read_message("3"), Some(message(None, None, None)));
}

#[test]
fn other_texts_are_no_messages() {
    for source in ["", "word", "{", r#"{"word":"a"} x"#, r#"{'word':'a'}"#, r#"{"word":"a",}"#] {
        assert_eq!(read_message(source), None, "{}", source);
    }
}

#[test]
fn commands_name_language_and_engine() {
    assert_eq!(set_language("de"), r#"{"lang":"de","type":"setlanguage"}"#);
    assert_eq!(set_engine(EngineArg::Parakeet), r#"{"engine":"parakeet","type":"setengine"}"#);
    assert_eq!(set_engine(EngineArg::Kyutai), r#"{"engine":"kyutai","type":"setengine"}"#);
}

#[test]
fn commands_can_be_read_back() {
    for lang in ["en", "", "a\"b\\c", "日本\u{0}\n\u{2028}"] {
        let sent = set_language(lang);
        let value: serde_json::Value = serde_json::from_str(&sent).unwrap();
        assert_eq!(value["type"], "setlanguage");
        assert_eq!(value["lang"], lang);
        assert_eq!(read_message(&sent).unwrap().kind, Some("setlanguage".to_string()));
    }
}

#[test]
fn dictated_words_hold_a_letter_or_a_digit() {
    for word in ["a", "...x", "7,", "é", "日"] {
        assert!(is_dictated(word), "{}", word);
    }
    for word in ["", " ", "...", "—", "?!"] {
        assert!(!is_dictated(word), "{}", word);
    }
}

#[test]
fn words_are_typed_and_texts_noted_while_capturing() {
    let word = message(Some("word"), Some("hi,"), Some("no"));
    assert_eq!(handle_message(word.clone(), true), MessageAction::Type("hi,".to_string()));
    assert_eq!(handle_message(word, false), MessageAction::Nothing);
    let done = message(Some("final"), Some("no"), Some("all"));
    assert_eq!(handle_message(done.clone(), true), MessageAction::Note("all".to_string()));
    assert_eq!(handle_message(done, false), MessageAction::Nothing);
}

#[test]
fn other_messages_lead_to_nothing() {
    for other in [
        message(None, Some("hi"), None),
        message(Some("word"), None, None),
        message(Some("word"), Some("..."), None),
        message(Some("final"), Some("x"), None),
        message(Some("Word"), Some("hi"), None),
    ] {
        assert_eq!(handle_message(other, true), MessageAction::Nothing);
    }
}
