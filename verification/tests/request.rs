use kiro_provider::json::document_text;
use kiro_provider::provider::KiroProvider;
use kiro_provider::request::{agent_mode, reports_monthly_limit};
use kiro_provider::text::{contains_text, decimal_text, same_text};

#[test]
fn test_is_monthly_request_limit_detects_reason() {
    let body = r#"{"message":"You have reached the limit.","reason":"MONTHLY_REQUEST_COUNT"}"#;
    assert!(KiroProvider::is_monthly_request_limit(body));
}

#[test]
fn test_is_monthly_request_limit_nested_reason() {
    let body = r#"{"error":{"reason":"MONTHLY_REQUEST_COUNT"}}"#;
    assert!(KiroProvider::is_monthly_request_limit(body));
}

#[test]
fn test_is_monthly_request_limit_false() {
    let body = r#"{"message":"nope","reason":"DAILY_REQUEST_COUNT"}"#;
    assert!(!KiroProvider::is_monthly_request_limit(body));
}

#[test]
fn test_extract_agent_task_type_vibe_default() {
    assert_eq!(KiroProvider::extract_agent_task_type_from_request("{}"), "vibe");
    assert_eq!(KiroProvider::extract_agent_task_type_from_request("invalid json"), "vibe");
}

#[test]
fn test_extract_agent_task_type_spectask() {
    let body = r#"{"conversationState":{"agentTaskType":"spectask","conversationId":"abc"}}"#;
    assert_eq!(KiroProvider::extract_agent_task_type_from_request(body), "spectask");
}

#[test]
fn test_extract_agent_task_type_vibe_explicit() {
    let body = r#"{"conversationState":{"agentTaskType":"vibe","conversationId":"abc"}}"#;
    assert_eq!(KiroProvider::extract_agent_task_type_from_request(body), "vibe");
}

#[test]
fn monthly_limit_is_found_behind_escapes() {
    let outer = r#"{"reason":"MONTHLY\u005fREQUEST_COUNT"}"#;
    assert!(KiroProvider::is_monthly_request_limit(outer));
    let nested = r#"{"error":{"reason":"MONTHLY\u005fREQUEST_COUNT"}}"#;
    assert!(KiroProvider::is_monthly_request_limit(nested));
    let elsewhere = r#"{"detail":{"reason":"MONTHLY\u005fREQUEST_COUNT"}}"#;
    assert!(!KiroProvider::is_monthly_request_limit(elsewhere));
    let in_a_list = r#"{"error":[{"reason":"MONTHLY\u005fREQUEST_COUNT"}]}"#;
    assert!(!KiroProvider::is_monthly_request_limit(in_a_list));
}

#[test]
fn monthly_limit_is_found_in_plain_text() {
    assert!(KiroProvider::is_monthly_request_limit("MONTHLY_REQUEST_COUNT"));
    assert!(KiroProvider::is_monthly_request_limit("quota: xMONTHLY_REQUEST_COUNT!"));
    assert!(!KiroProvider::is_monthly_request_limit("monthly_request_count"));
    assert!(!KiroProvider::is_monthly_request_limit("MONTHLY_REQUEST_COUN"));
    assert!(!KiroProvider::is_monthly_request_limit(""));
}

#[test]
fn monthly_limit_from_what_was_found() {
    let name = Some("MONTHLY_REQUEST_COUNT");
    assert!(reports_monthly_limit(true, None, None));
    assert!(reports_monthly_limit(false, name, None));
    assert!(reports_monthly_limit(false, Some("other"), name));
    assert!(!reports_monthly_limit(false, Some("other"), Some("MONTHLY_REQUEST_COUNT ")));
    assert!(!reports_monthly_limit(false, None, None));
}

#[test]
fn agent_mode_from_what_was_declared() {
    assert_eq!(agent_mode(Some("spectask")), "spectask");
    assert_eq!(agent_mode(Some("SPECTASK")), "vibe");
    assert_eq!(agent_mode(Some("chat")), "vibe");
    assert_eq!(agent_mode(None), "vibe");
}

#[test]
fn agent_task_type_must_be_a_string() {
    let body = r#"{"conversationState":{"agentTaskType":["spectask"]}}"#;
    assert_eq!(KiroProvider::extract_agent_task_type_from_request(body), "vibe");
    let body = r#"{"agentTaskType":"spectask"}"#;
    assert_eq!(KiroProvider::extract_agent_task_type_from_request(body), "vibe");
}

#[test]
fn model_is_extracted() {
    let body = r#"{"conversationState":{"currentMessage":{"userInputMessage":{"modelId":"large\n4"}}}}"#;
    assert_eq!(
        KiroProvider::extract_model_from_request(body),
        Some("large\n4".to_string())
    );
    let number = r#"{"conversationState":{"currentMessage":{"userInputMessage":{"modelId":4}}}}"#;
    assert_eq!(KiroProvider::extract_model_from_request(number), None);
    let short = r#"{"conversationState":{"currentMessage":{"modelId":"m"}}}"#;
    assert_eq!(KiroProvider::extract_model_from_request(short), None);
    assert_eq!(KiroProvider::extract_model_from_request("{"), None);
}

#[test]
fn continuation_id_is_extracted() {
    let body = r#"{"conversationState":{"agentContinuationId":"c-1","agentContinuationId":"c-2"}}"#;
    assert_eq!(
        KiroProvider::extract_continuation_id_from_request(body),
        Some("c-2".to_string())
    );
    let null = r#"{"conversationState":{"agentContinuationId":null}}"#;
    assert_eq!(KiroProvider::extract_continuation_id_from_request(null), None);
    assert_eq!(KiroProvider::extract_continuation_id_from_request("[]"), None);
}

#[test]
fn texts_are_found_by_path() {
    let text = r#" {"a":{"b":"deep","":"empty name"},"c":"shallow","d":[ "x" ]} "#;
    assert_eq!(document_text(text, &["a", "b"]), Some("deep".to_string()));
    assert_eq!(document_text(text, &["a", ""]), Some("empty name".to_string()));
    assert_eq!(document_text(text, &["c"]), Some("shallow".to_string()));
    assert_eq!(document_text(text, &["d", "0"]), None);
    assert_eq!(document_text(text, &["a"]), None);
    assert_eq!(document_text(text, &["a", "b", "c"]), None);
    assert_eq!(document_text(text, &[]), None);
    assert_eq!(document_text(r#""top""#, &[]), Some("top".to_string()));
    assert_eq!(document_text("{\"a\":\"b\"} x", &["a"]), None);
}

#[test]
fn text_helpers() {
    assert!(same_text("流式", "流式"));
    assert!(!same_text("流式", "流"));
    assert!(!same_text("abc", "abd"));
    assert!(contains_text("aab", "ab"));
    assert!(contains_text("abc", ""));
    assert!(!contains_text("ab", "abc"));
    assert_eq!(decimal_text(0), "0");
    assert_eq!(decimal_text(1234567890), "1234567890");
    assert_eq!(decimal_text(u64::MAX), "18446744073709551615");
}
