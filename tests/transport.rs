use commitbot::error::LlmError;
use commitbot::json::JsonSlot;
use commitbot::text::truncate;
use commitbot::transport::{
    classify_ollama_reply, classify_openai_reply, http_failure, ollama_chat_url, ollama_reply,
    ollama_request_body, openai_chat_url, openai_reply, openai_request_body, strip_trailing_slashes,
};

#[test]
fn chat_urls() {
    assert_eq!(openai_chat_url("https://api.openai.com"), "https://api.openai.com/v1/chat/completions");
    assert_eq!(openai_chat_url("https://api.openai.com//"), "https://api.openai.com/v1/chat/completions");
    assert_eq!(openai_chat_url("http://host:8080/v1/"), "http://host:8080/v1/chat/completions");
    assert_eq!(ollama_chat_url("http://localhost:11434/"), "http://localhost:11434/api/chat");
    assert_eq!(strip_trailing_slashes("///"), "");
}

#[test]
fn openai_body_is_exact_json() {
    let body = openai_request_body("gpt-5-nano", "sys \"q\"", "line1\nline2", false);
    assert_eq!(
        body,
        r#"{"model":"gpt-5-nano","messages":[{"role":"system","content":"sys \"q\""},{"role":"user","content":"line1\nline2"}],"stream":false}"#
    );
    let v: serde_json::Value = serde_json::from_str(&openai_request_body("m", "s", "u", true)).unwrap();
    assert_eq!(v["stream"], serde_json::Value::Bool(true));
    assert_eq!(v["messages"][1]["content"], serde_json::Value::String("u".to_string()));
}

#[test]
fn ollama_body_is_valid_json() {
    let body = ollama_request_body("llama3", "sys", "tab\there", true);
    let v: serde_json::Value = serde_json::from_str(&body).unwrap();
    assert_eq!(v["model"], serde_json::Value::String("llama3".to_string()));
    assert_eq!(v["stream"], serde_json::Value::Bool(true));
    assert_eq!(v["messages"][0]["role"], serde_json::Value::String("system".to_string()));
    assert_eq!(v["messages"][1]["content"], serde_json::Value::String("tab\there".to_string()));
    assert!(body.starts_with("{\"model\":\"llama3\",\"stream\":true,\"messages\":["));
}

#[test]
fn http_status_errors() {
    assert_eq!(http_failure(200, "ok"), None);
    assert_eq!(
        http_failure(401, "bad key"),
        Some(LlmError::Transport { status: Some(401), detail: "bad key".to_string() })
    );
    assert_eq!(
        openai_reply(503, "down"),
        Err(LlmError::Transport { status: Some(503), detail: "down".to_string() })
    );
    assert_eq!(
        ollama_reply(404, "model not found"),
        Err(LlmError::Transport { status: Some(404), detail: "model not found".to_string() })
    );
}

#[test]
fn openai_buffered_reply() {
    let body = r#"{"choices":[{"message":{"role":"assistant","content":"Add parser"}}],"usage":{"prompt_tokens":1,"completion_tokens":2,"total_tokens":3}}"#;
    assert_eq!(openai_reply(200, body), Ok("Add parser".to_string()));
    assert!(matches!(openai_reply(200, r#"{"choices":[]}"#), Err(LlmError::Decode { .. })));
    assert!(matches!(openai_reply(200, "<html>"), Err(LlmError::Decode { .. })));
}

#[test]
fn ollama_buffered_reply_is_trimmed() {
    let body = r#"{"message":{"role":"assistant","content":"  Fix typo\n"}}"#;
    assert_eq!(ollama_reply(200, body), Ok("Fix typo".to_string()));
    assert!(matches!(ollama_reply(200, r#"{"done":true}"#), Err(LlmError::Decode { .. })));
}

#[test]
fn reply_classification_of_looked_up_values() {
    let t = JsonSlot::Text(" x ".to_string());
    assert_eq!(classify_openai_reply(JsonSlot::Object, JsonSlot::Array(2), t.clone()), Some(" x ".to_string()));
    assert_eq!(classify_openai_reply(JsonSlot::Object, JsonSlot::Array(0), t.clone()), None);
    assert_eq!(classify_ollama_reply(JsonSlot::Object, JsonSlot::Object, t.clone()), Some("x".to_string()));
    assert_eq!(classify_ollama_reply(JsonSlot::Object, JsonSlot::Null, t), None);
}

#[test]
fn long_text_preview() {
    assert_eq!(truncate("hello", 10), "hello");
    assert_eq!(truncate("hello", 5), "hello");
    assert_eq!(truncate("hello world", 5), "hello...\n[truncated 6 chars]");
    assert_eq!(truncate("héllo", 3), "hé...\n[truncated 3 chars]");
}
