use crosschat::commands::chat::{ChatAccumulator, ChatDelta, LineBuffer, StreamEvent};
use crosschat::mcp::{call_outcome, listed_tool_definitions, ListedTool};
use crosschat::providers::anthropic::{reply_text_of, sync_result, AnReplyBlock, EventLines};
use crosschat::text::strip_prefix_str;

fn delta(content: Option<&str>, reasoning: Option<&str>) -> ChatDelta {
    ChatDelta { content: content.map(|s| s.to_string()), reasoning: reasoning.map(|s| s.to_string()) }
}

#[test]
fn streamed_text_is_the_stored_text() {
    let mut acc = ChatAccumulator::new();
    let mut streamed = String::new();
    for d in [delta(Some("Hel"), None), delta(None, Some("think")), delta(Some(""), None), delta(Some("lo"), Some("more"))] {
        for e in acc.on_delta(&d) {
            if let StreamEvent::Delta { text } = e {
                streamed.push_str(&text);
            }
        }
    }
    assert_eq!(streamed, "Hello");
    assert_eq!(acc.full_text, "Hello");
    assert_eq!(acc.full_reasoning, "thinkmore");
    match acc.done_event() {
        StreamEvent::Done { text } => assert_eq!(text, "Hello"),
        _ => panic!("expected the closing event"),
    }
}

#[test]
fn event_lines_group_until_blank() {
    let mut ev = EventLines::new();
    assert!(ev.push_line("event: message_start".to_string()).is_none());
    assert!(ev.push_line("data: {}".to_string()).is_none());
    let done = ev.push_line(String::new()).expect("an event");
    assert_eq!(done, vec!["event: message_start".to_string(), "data: {}".to_string()]);
    assert!(ev.push_line(String::new()).is_none());
}

#[test]
fn mcp_listing_and_call_results() {
    let listed = vec![
        ListedTool { name: Some("read".into()), description: Some("Reads".into()), input_schema: Some("{\"type\":\"object\"}".into()) },
        ListedTool { name: Some(String::new()), description: None, input_schema: None },
        ListedTool { name: Some("ping".into()), description: None, input_schema: None },
    ];
    let defs = listed_tool_definitions(&listed);
    assert_eq!(defs.len(), 2);
    assert_eq!(defs[0].name, "mcp_read");
    assert_eq!(defs[0].description, "[MCP] Reads");
    assert_eq!(defs[0].parameters, "{\"type\":\"object\"}");
    assert_eq!(defs[1].name, "mcp_ping");
    assert_eq!(defs[1].description, "[MCP] ");
    assert_eq!(defs[1].parameters, "{\"properties\":{},\"type\":\"object\"}");

    assert_eq!(
        call_outcome(Some("{\"code\":1}".into()), None, "{}".into()),
        Err("MCP 工具调用错误: {\"code\":1}".to_string())
    );
    assert_eq!(call_outcome(None, Some(vec![Some("a".into()), None, Some("b".into())]), "{}".into()), Ok("a\nb".to_string()));
    assert_eq!(call_outcome(None, None, "{\"x\":1}".into()), Ok("{\"x\":1}".to_string()));
}

#[test]
fn prefix_stripping() {
    assert_eq!(strip_prefix_str("mcp_read", "mcp_"), "read");
    assert_eq!(strip_prefix_str("read", "mcp_"), "read");
    assert_eq!(strip_prefix_str("mcp_", "mcp_"), "");
}

#[test]
fn lines_do_not_depend_on_chunking() {
    let mut whole = LineBuffer::new();
    let all = whole.push("data: a\n\ndata: b  \ndata: c");
    assert_eq!(all, vec!["data: a".to_string(), "".to_string(), "data: b".to_string()]);
    assert_eq!(whole.pending, "data: c");

    let mut pieces = LineBuffer::new();
    let mut got: Vec<String> = Vec::new();
    for part in ["da", "ta: a\n", "\ndata", ": b  \nda", "ta: c"] {
        got.extend(pieces.push(part));
    }
    assert_eq!(got, all);
    assert_eq!(pieces.pending, whole.pending);
}

fn block(kind: &str, text: Option<&str>, name: Option<&str>) -> AnReplyBlock {
    AnReplyBlock {
        kind: Some(kind.to_string()),
        text: text.map(|t| t.to_string()),
        id: name.map(|_| "call_1".to_string()),
        name: name.map(|n| n.to_string()),
        input: "{\"path\":\"a\"}".to_string(),
    }
}

#[test]
fn anthropic_reply_reading() {
    let blocks = vec![block("text", Some("Hello, "), None), block("tool_use", None, Some("read_file")), block("text", Some("world"), None)];
    assert_eq!(reply_text_of(&blocks), "Hello, world");
    match sync_result(&blocks) {
        crosschat::providers::types::ChatSyncResult::ToolCalls { calls, reasoning } => {
            assert_eq!(calls.len(), 1);
            assert_eq!(calls[0].name, "read_file");
            assert_eq!(calls[0].id, "call_1");
            assert_eq!(calls[0].arguments, "{\"path\":\"a\"}");
            assert!(reasoning.is_none());
        }
        other => panic!("unexpected {:?}", other),
    }
    let only_text = vec![block("text", Some("done"), None)];
    match sync_result(&only_text) {
        crosschat::providers::types::ChatSyncResult::Content(t) => assert_eq!(t, "done"),
        other => panic!("unexpected {:?}", other),
    }
}
