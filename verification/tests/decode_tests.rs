use crosschat::agent::decomposed::tasks_from_response;
use crosschat::agent::task_decomposer::TaskStatus;
use crosschat::commands::chat::{ChatAccumulator, StreamEvent};
use crosschat::mcp::{validation_result, McpReply, ReplyStep, ValidationOutcome};
use crosschat::providers::anthropic::{AnControl, AnStream};
use crosschat::providers::openai_compat::data_events;
use crosschat::providers::types::StreamChunk;

#[test]
fn openai_payloads_decode_to_events() {
    let (events, error) = data_events(r#"{"choices":[{"delta":{"content":"Hi"},"finish_reason":null}]}"#);
    assert!(error.is_none());
    assert!(matches!(&events[..], [StreamChunk::TextDelta { delta }] if delta == "Hi"));
    let (events, error) = data_events("not json");
    assert!(events.is_empty() && error.is_none());
    let (events, error) = data_events(r#"{"error":{"message":"quota"}}"#);
    assert_eq!(error.as_deref(), Some("quota"));
    assert!(matches!(&events[..], [StreamChunk::Error { .. }]));
    let (events, _) = data_events(
        r#"{"choices":[{"delta":{"tool_calls":[{"id":"c1","function":{"name":"read_file","arguments":"{\"p\""}}]}}]}"#,
    );
    assert!(events.iter().any(|e| matches!(e, StreamChunk::ToolCallStart { id, name } if id == "c1" && name == "read_file")));
}

#[test]
fn anthropic_payloads_decode_to_events() {
    let mut s = AnStream::new();
    let (ev, c) = s.on_data("", "");
    assert!(ev.is_empty() && matches!(c, AnControl::Continue));
    let (ev, c) = s.on_data("content_block_delta", "{oops");
    assert!(ev.is_empty() && matches!(c, AnControl::Continue));
    let (ev, _) = s.on_data("", r#"{"type":"content_block_start","index":1,"content_block":{"type":"tool_use","id":"t1","name":"run_command"}}"#);
    assert!(matches!(&ev[..], [StreamChunk::ToolCallStart { id, name }] if id == "t1" && name == "run_command"));
    let (ev, _) = s.on_data("", r#"{"type":"content_block_delta","index":1,"delta":{"type":"input_json_delta","partial_json":"{\"c\":1}"}}"#);
    assert!(matches!(&ev[..], [StreamChunk::ToolCallDelta { id, arguments_delta }] if id == "t1" && arguments_delta == "{\"c\":1}"));
    let (ev, c) = s.on_data("message_stop", "{}");
    assert!(matches!(&ev[..], [StreamChunk::Done { .. }]) && matches!(c, AnControl::Stop));
}

#[test]
fn chat_payloads_decode_to_deltas() {
    let mut acc = ChatAccumulator::new();
    let ev = acc.on_data(r#"{"choices":[{"delta":{"content":"Hel","reasoning_content":"think"}}]}"#);
    assert_eq!(ev.len(), 2);
    assert!(matches!(&ev[0], StreamEvent::Delta { text } if text == "Hel"));
    assert!(acc.on_data("[DONE").is_empty());
    assert!(acc.on_data(r#"{"choices":[]}"#).is_empty());
    assert!(acc.on_data(r#"{"choices":{"0":{"delta":{"content":"x"}}}}"#).is_empty());
    assert_eq!(acc.full_text, "Hel");
    assert_eq!(acc.full_reasoning, "think");
}

#[test]
fn decomposition_answers_become_tasks() {
    let ts = tasks_from_response(
        "Here:\n[{\"id\":\"1\",\"description\":\"read\",\"dependencies\":[]},{\"id\":\"2\",\"description\":\"write\",\"dependencies\":[\"1\",3]}]\nDone",
    )
    .unwrap();
    assert_eq!(ts.len(), 2);
    assert_eq!(ts[1].id, "2");
    assert_eq!(ts[1].dependencies, vec!["1".to_string()]);
    assert_eq!(ts[0].status, TaskStatus::Pending);
    let ts = tasks_from_response("[{\"description\":5}]").unwrap();
    assert_eq!((ts[0].id.as_str(), ts[0].description.as_str(), ts[0].dependencies.len()), ("", "", 0));
    let e = tasks_from_response("no array").unwrap_err();
    assert!(e.starts_with("解析任务失败: "), "{}", e);
    assert!(tasks_from_response("{\"a\":1}").unwrap_err().starts_with("解析任务失败: "));
}

#[test]
fn mcp_replies_read_line_by_line() {
    let mut r = McpReply::new();
    assert!(matches!(r.push_line("{\"id\":1,"), ReplyStep::Continue));
    match r.push_line("\"result\":{}}") {
        ReplyStep::Parsed(t) => assert_eq!(t, "{\"id\":1,\"result\":{}}"),
        other => panic!("{:?}", other),
    }
    let mut r = McpReply::new();
    let long = "x\n".repeat(51);
    match r.push_line(&long) {
        ReplyStep::TooManyLines(m) => assert_eq!(m, format!("响应行数过多: {}...", long)),
        other => panic!("{:?}", other),
    }
    let mut r = McpReply::new();
    let long = format!("{}tail", "y\n".repeat(150));
    match r.push_line(&long) {
        ReplyStep::TooManyLines(m) => assert_eq!(m, format!("响应行数过多: {}...", &long[..200])),
        other => panic!("{:?}", other),
    }
    let mut r = McpReply::new();
    let wide = format!("ab{}", "文\n".repeat(60));
    assert!(matches!(r.push_line(&wide), ReplyStep::CutInsideChar));
}

#[test]
fn validation_keeps_a_negative_time() {
    let r = validation_result("npx", &vec![], "1.0", ValidationOutcome::Tools(vec!["a".to_string()]), -5);
    assert!(r.success);
    assert!(r.message.ends_with("响应时间: -5 ms"), "{}", r.message);
}
