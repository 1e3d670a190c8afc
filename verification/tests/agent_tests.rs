use crosschat::agent::tool_registry::ToolRegistry;
use crosschat::agent::{Agent, AgentConfig};
use crosschat::agent::compactor::{message_debug_text, ContextCompactor};
use crosschat::providers::types::{ContentBlock, ImageSource, MessageRole, ToolCall, UnifiedMessage};

#[test]
fn test_agent_tool_gating() {
    let config = AgentConfig {
        max_iterations: 5,
        work_dir: "/tmp".to_string(),
        enable_self_healing: false,
        enable_task_decomposition: false,
    };
    let registry = ToolRegistry::new();
    let mut agent = Agent::new(config, registry);

    assert!(agent.is_tool_allowed("read_file"));
    assert!(agent.is_tool_allowed("run_command"));

    agent.allowed_tools = Some(vec!["read_file".to_string(), "write_file".to_string()]);
    assert!(agent.is_tool_allowed("read_file"));
    assert!(!agent.is_tool_allowed("run_command"));

    assert!(agent.is_tool_allowed("mcp_read_file"));
    assert!(!agent.is_tool_allowed("mcp_run_command"));

    assert!(agent.is_tool_allowed("mcp_search"));
    assert!(agent.is_tool_allowed("delegate_task"));
}

fn text_message(role: MessageRole, text: String) -> UnifiedMessage {
    UnifiedMessage {
        role,
        content: vec![ContentBlock::Text { text }],
        tool_calls: None,
        tool_call_id: None,
        reasoning_content: None,
    }
}

#[test]
fn test_context_compactor_estimate_and_compact() {
    let mut messages = vec![
        text_message(MessageRole::User, "[系统指令 — 遵循以下规则] Always be helpful.".to_string()),
        text_message(MessageRole::User, "[当前工作目录] /Volumes/DATA".to_string()),
    ];

    for i in 0..10 {
        messages.push(text_message(
            MessageRole::User,
            format!("Dialogue message {} with very large text payload: {}", i, "a".repeat(6000)),
        ));
        messages.push(text_message(
            MessageRole::Assistant,
            format!("Response {} with very large text payload: {}", i, "b".repeat(6000)),
        ));
    }

    let estimated = ContextCompactor::estimate_tokens(&messages);
    assert!(estimated > 16000, "Estimated tokens should exceed 16000, got {}", estimated);

    let compacted = ContextCompactor::compact(messages, "gpt-4");

    assert!(matches!(compacted[0].role, MessageRole::User));
    if let ContentBlock::Text { text } = &compacted[0].content[0] {
        assert!(text.contains("[系统指令"));
    } else {
        panic!("First message should be text");
    }

    assert!(matches!(compacted[1].role, MessageRole::User));
    if let ContentBlock::Text { text } = &compacted[1].content[0] {
        assert!(text.contains("[当前工作目录"));
    } else {
        panic!("Second message should be text");
    }

    let has_compaction_summary = compacted.iter().any(|msg| {
        if !msg.content.is_empty() {
            if let ContentBlock::Text { text } = &msg.content[0] {
                text.contains("[上下文折叠摘要 — 历史消息被压缩]") && text.contains("mcp_digest_")
            } else {
                false
            }
        } else {
            false
        }
    });
    assert!(has_compaction_summary, "Should contain compaction summary with digest");

    assert!(compacted.len() < 10, "Compacted message list length should be reduced, got {}", compacted.len());
}

#[test]
fn compaction_keeps_short_conversations() {
    let messages: Vec<UnifiedMessage> = (0..3)
        .map(|i| text_message(MessageRole::User, format!("message {}", i)))
        .collect();
    // 9 + 9 + 9 bytes of text: 27 * 2 / 7 + 3 * 20 tokens
    assert_eq!(ContextCompactor::estimate_tokens(&messages), 27 * 2 / 7 + 60);
    let kept = ContextCompactor::compact(messages, "gpt-4");
    assert_eq!(kept.len(), 3);
}

#[test]
fn fingerprint_text_is_the_debug_form() {
    let m = UnifiedMessage {
        role: MessageRole::Assistant,
        content: vec![
            ContentBlock::Text { text: "say \"hi\"\n".to_string() },
            ContentBlock::Image { source: ImageSource::FilePath { path: "/a.png".to_string(), mime_type: None } },
        ],
        tool_calls: Some(vec![ToolCall {
            id: "c1".to_string(),
            name: "read_file".to_string(),
            arguments: "{\"path\":\"a\",\"all\":true}".to_string(),
        }]),
        tool_call_id: None,
        reasoning_content: Some("plan".to_string()),
    };
    assert_eq!(
        message_debug_text(&m),
        "UnifiedMessage { role: Assistant, content: [Text { text: \"say \\\"hi\\\"\\n\" }, \
         Image { source: FilePath { path: \"/a.png\", mime_type: None } }], \
         tool_calls: Some([ToolCall { id: \"c1\", name: \"read_file\", \
         arguments: Object {\"all\": Bool(true), \"path\": String(\"a\")} }]), \
         tool_call_id: None, reasoning_content: Some(\"plan\") }"
    );
    let bad = UnifiedMessage {
        role: MessageRole::Tool,
        content: vec![],
        tool_calls: Some(vec![ToolCall { id: "x".to_string(), name: "t".to_string(), arguments: "{oops".to_string() }]),
        tool_call_id: Some("x".to_string()),
        reasoning_content: None,
    };
    assert_eq!(
        message_debug_text(&bad),
        "UnifiedMessage { role: Tool, content: [], tool_calls: Some([ToolCall { id: \"x\", name: \"t\", arguments: Null }]), tool_call_id: Some(\"x\"), reasoning_content: None }"
    );
}

fn drive(max_iterations: usize, replies: &[bool]) -> crosschat::agent::run::RunProgress {
    let config = AgentConfig { max_iterations, work_dir: "/tmp".to_string(), enable_self_healing: false, enable_task_decomposition: false };
    let agent = Agent::new(config, ToolRegistry::new());
    let mut p = crosschat::agent::run::run_start();
    let mut k = 0;
    while agent.wants_model(&p) && k < replies.len() {
        p = crosschat::agent::run::after_reply(&p, replies[k]);
        k += 1;
    }
    p
}

#[test]
fn runs_stop_at_the_first_answer_within_budget() {
    let p = drive(3, &[false, true, false]);
    assert_eq!((p.calls, p.answered), (2, true));
    let p = drive(3, &[false, false, false, false, true]);
    assert_eq!((p.calls, p.answered), (3, false));
    let p = drive(0, &[true]);
    assert_eq!((p.calls, p.answered), (0, false));
}

fn text_msg(role: MessageRole, text: String) -> UnifiedMessage {
    UnifiedMessage { role, content: vec![ContentBlock::Text { text }], tool_calls: None, tool_call_id: None, reasoning_content: None }
}

#[test]
fn try_compact_refuses_only_where_a_cut_fails() {
    let few = vec![text_msg(MessageRole::User, "hi".to_string())];
    assert_eq!(ContextCompactor::try_compact(few, "gpt").map(|v| v.len()), Some(1));
    let inside: Vec<UnifiedMessage> = (0..10).map(|_| text_msg(MessageRole::User, "文".repeat(3000))).collect();
    assert!(ContextCompactor::try_compact(inside, "gpt").is_none());
    let on_boundary: Vec<UnifiedMessage> =
        (0..10).map(|_| text_msg(MessageRole::User, format!("ab{}", "文".repeat(3000)))).collect();
    let out = ContextCompactor::try_compact(on_boundary, "gpt").expect("compacts");
    assert_eq!(out.len(), 2);
}
