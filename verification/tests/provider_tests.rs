use crosschat::commands::chat::AppError;
use crosschat::commands::provider::{
    anthropic_check_outcome, chat_models, connection_kind, fetch_api_error,
    fetch_models_from, is_chat_model, listed_models_outcome, parse_model_list, ConnectionKind,
};

#[test]
fn model_list_from_openai_data() {
    let json = r#"{"object":"list","data":[{"id":"gpt-4o"},{"id":"gpt-4o-mini"},{"name":"x"}]}"#;
    assert_eq!(parse_model_list(json), vec!["gpt-4o".to_string(), "gpt-4o-mini".to_string()]);
}

#[test]
fn model_list_from_models_objects_and_strings() {
    assert_eq!(parse_model_list(r#"{"models":[{"id":"a"},{"id":"b"}]}"#), vec!["a", "b"]);
    assert_eq!(parse_model_list(r#"{"models":["m1","m2"]}"#), vec!["m1", "m2"]);
}

#[test]
fn model_list_from_root_array() {
    assert_eq!(parse_model_list(r#"[{"id":"r1"}]"#), vec!["r1"]);
    assert_eq!(parse_model_list(r#"["s1","s2"]"#), vec!["s1", "s2"]);
}

#[test]
fn model_list_from_result_and_body_data() {
    assert_eq!(parse_model_list(r#"{"result":[{"id":"qwen"}]}"#), vec!["qwen"]);
    assert_eq!(parse_model_list(r#"{"body":{"data":[{"id":"deep"}]}}"#), vec!["deep"]);
}

#[test]
fn model_list_prefers_data_over_models() {
    let json = r#"{"data":[{"id":"first"}],"models":["second"]}"#;
    assert_eq!(parse_model_list(json), vec!["first"]);
    // an empty data list falls through to the next shape
    assert_eq!(parse_model_list(r#"{"data":[],"models":["second"]}"#), vec!["second"]);
}

#[test]
fn model_list_of_unknown_shape_is_empty() {
    assert!(parse_model_list(r#"{"foo":1}"#).is_empty());
    assert!(parse_model_list("not json").is_empty());
}

#[test]
fn chat_model_filter() {
    assert!(is_chat_model("gpt-4o"));
    assert!(!is_chat_model("whisper-1"));
    assert!(!is_chat_model("tts-1-hd"));
    assert!(!is_chat_model("dall-e-3"));
    assert!(!is_chat_model("text-embedding-3-small"));
    assert!(!is_chat_model("omni-moderation-latest"));
    let kept = chat_models(vec!["gpt-4o".into(), "whisper-1".into(), "o1".into()]);
    assert_eq!(kept, vec!["gpt-4o", "o1"]);
}

#[test]
fn listed_models_ok_and_error() {
    let ok = listed_models_outcome(vec!["gpt-4o".into()], "{}");
    assert_eq!(ok, Ok(vec!["gpt-4o".to_string()]));
    let err = listed_models_outcome(vec!["whisper-1".into()], r#"{"data":[]}"#).unwrap_err();
    assert_eq!(
        err,
        "未找到可用模型，API 返回格式可能不标准。\n\n返回内容: {\"data\":[]}\n\n请手动在模型列表中输入模型名称，或检查 Base URL 是否正确。"
    );
}

#[test]
fn listed_models_error_quotes_first_200_bytes() {
    let body = "x".repeat(250);
    let err = listed_models_outcome(vec![], &body).unwrap_err();
    assert!(err.contains(&"x".repeat(200)));
    assert!(!err.contains(&"x".repeat(201)));
}

#[test]
fn provider_kinds() {
    assert_eq!(connection_kind("openai-compat"), Ok(ConnectionKind::OpenAiCompat));
    assert_eq!(connection_kind("anthropic"), Ok(ConnectionKind::Anthropic));
    assert_eq!(connection_kind("gemini"), Err("不支持的 Provider 类型: gemini".to_string()));
}

#[test]
fn anthropic_outcomes() {
    let presets = vec!["model-a".to_string(), "model-b".to_string()];
    assert_eq!(anthropic_check_outcome(200, "200 OK", "", presets.clone()), Ok(presets.clone()));
    assert_eq!(
        anthropic_check_outcome(401, "401 Unauthorized", "bad", presets.clone()),
        Err("API Key 无效。请检查您的 Anthropic API Key 是否正确。".to_string())
    );
    assert_eq!(
        anthropic_check_outcome(500, "500 Internal Server Error", "boom", presets),
        Err("HTTP 500 Internal Server Error: boom。请检查 API Key 和网络连接。".to_string())
    );
}

#[test]
fn fetch_models_reads_data_ids() {
    match fetch_models_from(r#"{"data":[{"id":"a"},{"id":"b"}]}"#) {
        Ok(v) => assert_eq!(v, vec!["a", "b"]),
        Err(_) => panic!("expected models"),
    }
    match fetch_models_from(r#"{"models":[]}"#) {
        Err(AppError::Parse(m)) => assert_eq!(m, "响应格式错误: 未找到 data 字段"),
        _ => panic!("expected a parse error"),
    }
    match fetch_api_error("quota") {
        AppError::Api(m) => assert_eq!(m, "API 错误: quota"),
        _ => panic!("expected an API error"),
    }
}
