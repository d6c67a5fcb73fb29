//! Sentences for the model and its replies.

use ears::llm_correct::{
    clean_response, finish_request, probe_url, read_answer, read_reply, Exchange,
    LlmCorrectConfig, LlmError, SentenceCorrector, WordStep, PARAGRAPH_PROMPT,
    PROBE_TIMEOUT_SECS, SENTENCE_PROMPT,
};

fn corrector() -> SentenceCorrector {
    SentenceCorrector::new(LlmCorrectConfig::default())
}

#[test]
fn default_configuration() {
    let config = LlmCorrectConfig::default();
    assert_eq!(config.endpoint, "http://localhost:11434");
    assert_eq!(config.model, "qwen2.5:14b");
    assert_eq!(config.final_model, "qwen2.5:14b");
    assert_eq!(config.timeout_secs, 10);
    assert_eq!(config.num_predict_fast, 128);
    assert_eq!(config.num_predict_final, 512);
}

#[test]
fn options_choose_models() {
    let config =
        LlmCorrectConfig::from_options(None, "m".to_string(), None, Some("f".to_string()), 1, 2);
    assert_eq!(config.endpoint, "http://localhost:11434");
    assert_eq!((config.model.as_str(), config.final_model.as_str()), ("m", "f"));
    assert_eq!((config.timeout_secs, config.num_predict_fast, config.num_predict_final), (10, 1, 2));
    let config = LlmCorrectConfig::from_options(
        Some("http://there".to_string()),
        "m".to_string(),
        Some("q".to_string()),
        None,
        1,
        2,
    );
    assert_eq!(config.endpoint, "http://there");
    assert_eq!((config.model.as_str(), config.final_model.as_str()), ("q", "m"));
}

#[test]
fn a_sentence_is_asked_for_as_a_whole() {
    let mut corrector = corrector();
    assert_eq!(corrector.add_word("run"), WordStep::Type);
    assert_eq!(corrector.add_word("the"), WordStep::Type);
    assert_eq!(corrector.add_word("bath. "), WordStep::Correct("run the bath. ".to_string()));
    assert_eq!(corrector.typed_count, 2);
    let outcome: Result<_, ()> =
        corrector.resolve_word("run the bath. ", Ok("Run the batch.".to_string()));
    assert_eq!(outcome, Ok((false, Some((2, "Run the batch.".to_string())))));
    assert_eq!((corrector.buffer.len(), corrector.typed_count), (0, 0));
}

#[test]
fn an_unchanged_sentence_leaves_its_last_word_to_type() {
    let mut corrector = corrector();
    corrector.add_word("all");
    corrector.add_word("good!");
    let outcome: Result<_, ()> = corrector.resolve_word("all good!", Ok("all good!".to_string()));
    assert_eq!(outcome, Ok((true, None)));
    assert_eq!((corrector.buffer.len(), corrector.typed_count), (0, 1));
}

#[test]
fn a_failed_request_keeps_the_sentence() {
    let mut corrector = corrector();
    corrector.add_word("is");
    corrector.add_word("it?");
    assert_eq!(corrector.resolve_word("is it?", Err("down")), Err("down"));
    assert_eq!((corrector.buffer.len(), corrector.typed_count), (2, 1));
    assert_eq!(corrector.resolve_flush("is it?", Err("down")), Err("down"));
    assert_eq!((corrector.buffer.len(), corrector.typed_count), (2, 1));
}

#[test]
fn a_single_word_is_no_sentence() {
    let mut corrector = corrector();
    assert_eq!(corrector.add_word("Stop."), WordStep::Type);
    assert_eq!(corrector.add_word("now"), WordStep::Type);
    assert_eq!(corrector.typed_count, 2);
}

#[test]
fn remaining_words_are_flushed() {
    let mut corrector = corrector();
    assert_eq!(corrector.flush(), None);
    corrector.add_word("left");
    corrector.add_word("over");
    assert_eq!(corrector.flush(), Some("left over".to_string()));
    let same: Result<_, ()> = corrector.resolve_flush("left over", Ok("left over".to_string()));
    assert_eq!(same, Ok(None));
    corrector.add_word("left");
    let other: Result<_, ()> = corrector.resolve_flush("left", Ok("Left.".to_string()));
    assert_eq!(other, Ok(Some((1, "Left.".to_string()))));
    assert_eq!(corrector.flush(), None);
}

#[test]
fn requests() {
    let config = LlmCorrectConfig::from_options(
        Some("http://there:1".to_string()),
        "m".to_string(),
        Some("fast".to_string()),
        Some("last".to_string()),
        7,
        9,
    );
    let corrector = SentenceCorrector::new(config);
    let request = corrector.correct_sentence("run the bath");
    assert_eq!(request.url, "http://there:1/api/generate");
    assert_eq!(request.model, "fast");
    assert_eq!(request.prompt, format!("{}run the bath", SENTENCE_PROMPT));
    assert!(request.prompt.ends_with("nothing else.\n\nText: run the bath"));
    assert!(request.prompt.contains("\"bath\"→\"batch\", \"B4\"→\"before\", \"uh\"→remove."));
    assert!(!request.stream);
    assert_eq!(request.num_predict, 7);
    let request = corrector.correct_paragraph("run the bath");
    assert_eq!(request.model, "last");
    assert_eq!(request.prompt, format!("{}run the bath", PARAGRAPH_PROMPT));
    assert!(request.prompt.starts_with("Clean up this dictated paragraph. Fix:\n- Transcription"));
    assert!(request.prompt.ends_with("preserving meaning.\n\nText: run the bath"));
    assert_eq!(request.num_predict, 9);
    assert!(!request.stream);
    assert_eq!(probe_url("http://there:1"), "http://there:1/api/tags");
    assert_eq!(PROBE_TIMEOUT_SECS, 2);
}

#[test]
fn replies_are_cleaned() {
    assert_eq!(clean_response("  \"Hello there.\"\n"), "Hello there.");
    assert_eq!(clean_response("\" spaced \""), " spaced ");
    assert_eq!(clean_response("say \"hi\""), "say \"hi");
    assert_eq!(clean_response("\"\""), "");
}

#[test]
fn outcomes_of_requests() {
    assert_eq!(finish_request(Exchange::NotSent), Err(LlmError::NotSent));
    let answered = |status: u16, body: Option<&str>, reply: Option<&str>| Exchange::Answered {
        status,
        body: body.map(|s| s.to_string()),
        reply: reply.map(|s| s.to_string()),
    };
    assert_eq!(
        finish_request(answered(404, Some("no model"), None)),
        Err(LlmError::Status(404, "no model".to_string()))
    );
    assert_eq!(
        finish_request(answered(300, None, Some("x"))),
        Err(LlmError::Status(300, String::new()))
    );
    assert_eq!(
        finish_request(answered(199, None, Some("x"))),
        Err(LlmError::Status(199, String::new()))
    );
    assert_eq!(finish_request(answered(200, Some("{}"), None)), Err(LlmError::Unreadable));
    assert_eq!(finish_request(answered(299, None, Some(" ok "))), Ok("ok".to_string()));
}

#[test]
fn replies_are_read_from_bodies() {
    let body = r#"{"model":"m","response":" \"Hi there.\" ","done":true}"#;
    assert_eq!(read_reply(body), Some(" \"Hi there.\" ".to_string()));
    for other in ["", "Hi", "{\"response\":", "{\"reply\":\"Hi\"}", "{\"response\":1}"] {
        assert_eq!(read_reply(other), None, "{}", other);
    }
}

#[test]
fn answers_are_read_and_finished() {
    let finish = |status: u16, body: Option<&str>| {
        finish_request(read_answer(status, body.map(|s| s.to_string())))
    };
    let body = r#"{"response":" \"Hi there.\" "}"#;
    assert_eq!(finish(200, Some(body)), Ok("Hi there.".to_string()));
    assert_eq!(finish(500, Some(body)), Err(LlmError::Status(500, body.to_string())));
    assert_eq!(finish(200, Some("Hi")), Err(LlmError::Unreadable));
    assert_eq!(finish(200, None), Err(LlmError::Unreadable));
}
