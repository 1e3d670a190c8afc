use crosschat::commands::agent_loop::{
    agent_rules_text, classify_failure, compressed_context, first_line_of, missing_file_result,
    prepend_instructions, search_prefix, similar_files, summary_prompt, NamePrefix, Repair,
};
use crosschat::providers::types::{ContentBlock, MessageRole, UnifiedMessage};

fn msg(role: MessageRole, text: &str) -> UnifiedMessage {
    UnifiedMessage::text(role, text.to_string())
}

fn text_of(m: &UnifiedMessage) -> &str {
    match &m.content[0] {
        ContentBlock::Text { text } => text.as_str(),
        _ => panic!("expected text"),
    }
}

#[test]
fn rules_message_only_when_found_and_not_blank() {
    assert_eq!(agent_rules_text(false, "rule"), None);
    assert_eq!(agent_rules_text(true, "   \n"), None);
    assert_eq!(
        agent_rules_text(true, "  be brief \n"),
        Some("[系统指令 — 遵循以下规则约束你的行为]\n\nbe brief\n\n---\n请始终遵循以上规则。".to_string())
    );
}

#[test]
fn skills_go_before_rules() {
    let out = prepend_instructions(vec![msg(MessageRole::User, "hi")], Some("rules".into()), Some("skills".into()));
    assert_eq!(out.len(), 3);
    assert_eq!(text_of(&out[0]), "skills");
    assert_eq!(text_of(&out[1]), "rules");
    assert_eq!(text_of(&out[2]), "hi");
}

#[test]
fn summary_request_lists_non_blank_messages() {
    let old = vec![msg(MessageRole::User, "写个脚本"), msg(MessageRole::Assistant, "  "), msg(MessageRole::Tool, "ok")];
    let p = summary_prompt(&old);
    assert!(p.starts_with("请用简洁的要点形式总结以下对话历史。保留关键信息：用户的需求、已完成的文件操作、代码修改、做出的决策"));
    assert!(p.ends_with("\n\n---\n[用户]: 写个脚本\n[工具结果]: ok"));
}

#[test]
fn compressed_context_starts_with_summary() {
    let out = compressed_context("  要点 \n", vec![msg(MessageRole::User, "recent")]);
    assert_eq!(out.len(), 2);
    assert_eq!(text_of(&out[0]), "[上下文摘要 — 之前对话的要点]\n要点");
    assert_eq!(text_of(&out[1]), "recent");
}

#[test]
fn first_line_rules() {
    assert_eq!(first_line_of("a\r\nb"), "a");
    assert_eq!(first_line_of("one\ntwo"), "one");
    assert_eq!(first_line_of("single"), "single");
    assert_eq!(first_line_of(""), "");
    assert_eq!(first_line_of("\nrest"), "");
}

#[test]
fn failure_classification() {
    assert!(matches!(classify_failure("read_file", "File Not Found"), Repair::MissingFile));
    assert!(matches!(classify_failure("run_command", "file not found"), Repair::Pass));
    match classify_failure("run_command", "ModuleNotFoundError: x") {
        Repair::Advice(t) => {
            assert!(t.success);
            assert_eq!(t.content, "> 🔧 Python 模块缺失，沙盒已自动安装。请重试原命令。");
        }
        _ => panic!("expected advice"),
    }
    match classify_failure("write_file", "EACCES: denied") {
        Repair::Advice(t) => assert!(!t.success && t.content.starts_with("> 权限不足。")),
        _ => panic!("expected advice"),
    }
    match classify_failure("run_command", "bash: Syntax error near x\nmore") {
        Repair::Advice(t) => assert_eq!(t.content, "> 命令执行出错:\n> bash: Syntax error near x\n> 请修正语法后重试。"),
        _ => panic!("expected advice"),
    }
    assert!(matches!(classify_failure("read_file", "timeout"), Repair::Pass));
}

#[test]
fn missing_file_advice() {
    let found = missing_file_result("a.txt", "/w", &vec!["/w/ab.txt".to_string(), "/w/AB.md".to_string()]);
    assert!(found.success);
    assert_eq!(found.content, "> 🔧 文件 'a.txt' 未找到。工作目录中相似文件:\n  - /w/ab.txt\n  - /w/AB.md\n> 请使用正确路径重试。");
    let none = missing_file_result("a.txt", "/w", &vec![]);
    assert!(!none.success);
    assert_eq!(none.content, "> 文件未找到。当前工作目录: /w\n> 请用 list_directory 确认文件路径后重试。");
}

#[test]
fn search_prefix_of_file_names() {
    match search_prefix("README.md") {
        NamePrefix::Prefix(p) => assert_eq!(p, "re"),
        other => panic!("unexpected {:?}", other),
    }
    assert!(matches!(search_prefix("a"), NamePrefix::TooShort));
    assert!(matches!(search_prefix(""), NamePrefix::TooShort));
    // Two bytes that lower-case to two bytes of one character.
    match search_prefix("é") {
        NamePrefix::Prefix(p) => assert_eq!(p, "é"),
        other => panic!("unexpected {:?}", other),
    }
    // The first character takes three bytes: no cut after two.
    assert!(matches!(search_prefix("文件.txt"), NamePrefix::Uncuttable));
}

#[test]
fn similar_files_match_lowercased_names() {
    let entries: Vec<(String, String)> = ["Report.txt", "notes.md", "old_report.csv"]
        .iter()
        .map(|n| (n.to_string(), format!("/w/{}", n)))
        .collect();
    assert_eq!(similar_files("re", &entries), vec!["/w/Report.txt".to_string(), "/w/old_report.csv".to_string()]);
    assert!(similar_files("zz", &entries).is_empty());
}
