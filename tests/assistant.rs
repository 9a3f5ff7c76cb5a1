use wurdump::assistant::{
    accept_reply, after_failure, build_user_prompt, check_content, contains_text, failure_report, has_model,
    max_tokens_for, read_reply, status_message, ReplyError, RequestError, RetryStep, MAX_ATTEMPTS,
};

#[test]
fn prompt_without_context_or_request() {
    let p = build_user_prompt("hello", &None, &None);
    assert_eq!(
        p,
        "Main Content:\n```\nhello\n```\n\nPlease improve and format this content, taking into account any provided context."
    );
}

#[test]
fn prompt_with_request() {
    let p = build_user_prompt("x = 1", &Some("Explain it".to_string()), &Some(vec![]));
    assert_eq!(p, "Main Content:\n```\nx = 1\n```\n\nRequest: Explain it");
}

#[test]
fn prompt_with_numbered_context() {
    let items: Vec<String> = (1..=11).map(|k| format!("item{}", k)).collect();
    let p = build_user_prompt("body", &Some("Do it".to_string()), &Some(items));
    let mut expected = String::from("Additional Context:\n");
    for k in 1..=11 {
        expected.push_str(&format!("Context {}: item{}\n\n", k, k));
    }
    expected.push_str("---\n\nMain Content:\n```\nbody\n```\n\nRequest: Do it");
    assert_eq!(p, expected);
}

#[test]
fn token_budget() {
    assert_eq!(max_tokens_for(0, 0), 1000);
    assert_eq!(max_tokens_for(4000, 4003), 1000);
    assert_eq!(max_tokens_for(4000, 4004), 2000);
    assert_eq!(max_tokens_for(usize::MAX, usize::MAX), 2000);
}

#[test]
fn retries_back_off_exponentially() {
    assert_eq!(after_failure(1, "Network error: reset"), RetryStep::Retry { delay_ms: 1000 });
    assert_eq!(after_failure(2, "AI service error: 500"), RetryStep::Retry { delay_ms: 2000 });
    assert_eq!(after_failure(MAX_ATTEMPTS, "AI service error: 500"), RetryStep::GiveUp);
    assert_eq!(after_failure(7, "timed out"), RetryStep::GiveUp);
}

#[test]
fn final_errors_are_not_retried() {
    assert_eq!(after_failure(1, "Request cancelled by user"), RetryStep::GiveUp);
    assert_eq!(after_failure(1, "Invalid response format from AI service"), RetryStep::GiveUp);
    assert_eq!(
        after_failure(1, "Cannot connect to AI service. Please start Ollama: ollama serve"),
        RetryStep::GiveUp
    );
    assert_eq!(after_failure(1, "Cannot"), RetryStep::Retry { delay_ms: 1000 });
}

#[test]
fn substring_search() {
    assert!(contains_text("abcabd", "abd"));
    assert!(contains_text("abc", ""));
    assert!(contains_text("abc", "abc"));
    assert!(!contains_text("ab", "abc"));
    assert!(!contains_text("aXbXc", "abc"));
}

#[test]
fn failure_report_names_the_attempts() {
    assert_eq!(failure_report("boom"), "AI processing failed after 3 attempts: boom");
}

#[test]
fn model_presence() {
    assert!(has_model(&vec!["llama3:8b".to_string(), "gpt-oss:20b".to_string()]));
    assert!(!has_model(&vec!["llama3:8b".to_string()]));
    assert!(!has_model(&vec![]));
    assert_eq!(status_message(true), "AI features are ready!");
    assert_eq!(
        status_message(false),
        "Ollama is running but gpt-oss model not found. Run: ollama pull gpt-oss:20b"
    );
}

#[test]
fn blank_content_is_refused() {
    assert_eq!(check_content("  \n"), Err(RequestError::EmptyContent));
    assert_eq!(check_content(""), Err(RequestError::EmptyContent));
    assert_eq!(check_content(" a "), Ok(()));
    assert_eq!(RequestError::EmptyContent.message(), "Content is empty");
}

#[test]
fn reply_text_is_checked() {
    assert_eq!(accept_reply(None), Err(ReplyError::InvalidFormat));
    assert_eq!(accept_reply(Some(" \n ".to_string())), Err(ReplyError::Empty));
    assert_eq!(accept_reply(Some("done".to_string())), Ok("done".to_string()));
    assert_eq!(ReplyError::InvalidFormat.message(), "Invalid response format from AI service");
    assert_eq!(ReplyError::Empty.message(), "AI returned empty response");
    assert_eq!(after_failure(1, ReplyError::InvalidFormat.message()), RetryStep::GiveUp);
    assert_eq!(after_failure(1, ReplyError::Empty.message()), RetryStep::Retry { delay_ms: 1000 });
}

#[test]
fn chat_reply_is_read_from_the_json_body() {
    let ok = r#"{"choices":[{"message":{"role":"assistant","content":"Better text"}}]}"#;
    assert_eq!(read_reply(ok), Ok("Better text".to_string()));
    assert_eq!(read_reply("not json"), Err(ReplyError::NotJson));
    assert_eq!(read_reply(r#"{"choices":[]}"#), Err(ReplyError::InvalidFormat));
    assert_eq!(read_reply(r#"{"choices":[{"message":{"content":7}}]}"#), Err(ReplyError::InvalidFormat));
    assert_eq!(read_reply(r#"{"choices":[{"message":{"content":"  "}}]}"#), Err(ReplyError::Empty));
    assert_eq!(ReplyError::NotJson.message(), "Failed to parse AI response as JSON");
    assert_eq!(after_failure(1, ReplyError::NotJson.message()), RetryStep::Retry { delay_ms: 1000 });
}
