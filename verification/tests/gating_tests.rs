use crosschat::agent::gating::candidate_file_paths;
use crosschat::agent::tool_registry::ToolRegistry;
use crosschat::agent::{Agent, AgentConfig};
use crosschat::providers::types::{MessageRole, UnifiedMessage};

#[test]
fn file_names_in_a_request() {
    assert_eq!(candidate_file_paths("请读取 `src/main.rs` 和 'data.csv', 然后总结"), vec!["src/main.rs", "data.csv"]);
    assert_eq!(candidate_file_paths("看看 (README.md)!"), vec!["README.md"]);
    assert_eq!(candidate_file_paths("看看(README.md)!"), vec!["看看(README.md"]);
    assert!(candidate_file_paths("x. is short").is_empty());
    assert_eq!(candidate_file_paths("a.b"), vec!["a.b"]);
    assert!(candidate_file_paths("").is_empty());
}

fn agent_with(messages: Vec<UnifiedMessage>) -> Agent {
    let mut agent = Agent::new(AgentConfig::default(), ToolRegistry::new());
    agent.context = messages;
    agent
}

#[test]
fn skills_context_enters_once() {
    let mut agent = agent_with(vec![UnifiedMessage::text(MessageRole::User, "整理 report.docx".into())]);
    let request = agent.skill_request();
    assert_eq!(request, "整理 report.docx");
    let ctx = "[已激活的 Skills — 已针对当前任务自动挂载扩展能力]\ndocx".to_string();
    agent.apply_skills(&request, Some(ctx.clone()), Some(vec!["read_file".into()]));
    assert_eq!(agent.context.len(), 2);
    assert_eq!(agent.allowed_tools, Some(vec!["read_file".to_string()]));
    agent.apply_skills(&request, Some(ctx), Some(vec!["write_file".into()]));
    assert_eq!(agent.context.len(), 2);
    assert_eq!(agent.allowed_tools, Some(vec!["read_file".to_string()]));
}

#[test]
fn empty_request_changes_nothing() {
    let mut agent = agent_with(vec![]);
    agent.apply_skills("", Some("ctx".into()), Some(vec![]));
    assert!(agent.context.is_empty());
    assert_eq!(agent.allowed_tools, None);
}
