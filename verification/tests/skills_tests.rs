use crosschat::commands::skills::{assemble_skills, builtin_category_of, mcp_tool_skill, InstalledSkill};
use crosschat::mcp::McpServerConfig;
use crosschat::providers::types::ToolDefinition;

fn def(name: &str, description: &str) -> ToolDefinition {
    ToolDefinition { name: name.to_string(), description: description.to_string(), parameters: "{}".to_string() }
}

fn server(name: &str, enabled: bool) -> McpServerConfig {
    McpServerConfig {
        id: format!("id-{}", name),
        name: name.to_string(),
        command: "npx".to_string(),
        args: vec![],
        enabled,
    }
}

#[test]
fn builtin_categories() {
    assert_eq!(builtin_category_of("read_file"), "file");
    assert_eq!(builtin_category_of("list_directory"), "file");
    assert_eq!(builtin_category_of("run_command"), "command");
    assert_eq!(builtin_category_of("web_search"), "builtin");
}

#[test]
fn mcp_tool_entry_strips_prefixes() {
    let s = mcp_tool_skill("fs", &def("mcp_read", "[MCP] Reads a file"));
    assert_eq!(s.name, "read");
    assert_eq!(s.description, "Reads a file");
    assert_eq!(s.category, "mcp/fs");
    assert!(s.enabled);
    let plain = mcp_tool_skill("fs", &def("other", "no tag"));
    assert_eq!(plain.name, "other");
    assert_eq!(plain.description, "no tag");
}

#[test]
fn skills_panel_order() {
    let builtin = vec![def("read_file", "read"), def("run_command", "run")];
    let servers = vec![server("fs", true), server("git", false)];
    let tools = vec![vec![def("mcp_list", "[MCP] list")], vec![]];
    let installed = vec![InstalledSkill { name: "pdf".into(), description: "PDF tools".into(), enabled: false }];
    let all = assemble_skills(&builtin, &servers, &tools, &installed);
    let names: Vec<&str> = all.iter().map(|s| s.name.as_str()).collect();
    assert_eq!(
        names,
        vec!["read_file", "run_command", "list", "git", "pdf", "thinking_chain", "context_compression", "multi_provider", "workspace"]
    );
    assert_eq!(all[0].category, "file");
    assert_eq!(all[1].category, "command");
    assert_eq!(all[2].category, "mcp/fs");
    assert_eq!(all[3].description, "npx (已禁用)");
    assert_eq!(all[3].category, "mcp");
    assert!(!all[3].enabled);
    assert_eq!(all[4].category, "skill");
    assert!(!all[4].enabled);
    assert!(all[5..].iter().all(|s| s.category == "system" && s.enabled));
}
