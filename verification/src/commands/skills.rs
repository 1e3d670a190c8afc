//! The skills panel: built-in tools, MCP plugin tools, installed skills and
//! system capabilities, in one list.
use vstd::prelude::*;
use crate::mcp::McpServerConfig;
use crate::providers::types::ToolDefinition;
use crate::services::SkillInfo;
use crate::agent::str_equal;
use crate::text::{append_str, string_from_chars, strip_prefix_seq, strip_prefix_str};

verus! {

/// A skill installed in the skills folder, as its listing reads it.
#[derive(Debug, Clone)]
pub struct InstalledSkill {
    pub name: String,
    pub description: String,
    pub enabled: bool,
}

/// The plain values of a listed skill: name, description, category, enabled.
pub open spec fn skill_v(s: SkillInfo) -> (Seq<char>, Seq<char>, Seq<char>, bool) {
    (s.name@, s.description@, s.category@, s.enabled)
}

/// The plain values of listed skills.
pub open spec fn skills_v(v: Seq<SkillInfo>) -> Seq<(Seq<char>, Seq<char>, Seq<char>, bool)> {
    v.map_values(|s: SkillInfo| skill_v(s))
}

/// The category of a built-in tool: `file` for the file tools, `command` for
/// `run_command`, `builtin` for the rest.
pub open spec fn builtin_category(name: Seq<char>) -> Seq<char> {
    if name == "read_file"@ || name == "write_file"@ || name == "delete_file"@ || name == "list_directory"@ {
        "file"@
    } else if name == "run_command"@ {
        "command"@
    } else {
        "builtin"@
    }
}

/// The entry of a built-in tool.
pub open spec fn builtin_entry(d: ToolDefinition) -> (Seq<char>, Seq<char>, Seq<char>, bool) {
    (d.name@, d.description@, builtin_category(d.name@), true)
}

/// The entry of a tool that an enabled MCP server offers: the name without
/// `mcp_`, the description without `[MCP] `, the category `mcp/<server>`.
pub open spec fn mcp_tool_entry(server: Seq<char>, d: ToolDefinition) -> (Seq<char>, Seq<char>, Seq<char>, bool) {
    (strip_prefix_seq(d.name@, "mcp_"@), strip_prefix_seq(d.description@, "[MCP] "@), "mcp/"@ + server, true)
}

/// The entry of a disabled MCP server.
pub open spec fn disabled_server_entry(s: McpServerConfig) -> (Seq<char>, Seq<char>, Seq<char>, bool) {
    (s.name@, s.command@ + " (已禁用)"@, "mcp"@, false)
}

/// The entry of an installed skill.
pub open spec fn installed_entry(s: InstalledSkill) -> (Seq<char>, Seq<char>, Seq<char>, bool) {
    (s.name@, s.description@, "skill"@, s.enabled)
}

/// The entries that one MCP server contributes: its tools when enabled, one
/// disabled entry otherwise.
pub open spec fn server_entries(s: McpServerConfig, tools: Seq<ToolDefinition>) -> Seq<(Seq<char>, Seq<char>, Seq<char>, bool)> {
    if s.enabled {
        tools.map_values(|d: ToolDefinition| mcp_tool_entry(s.name@, d))
    } else {
        seq![disabled_server_entry(s)]
    }
}

/// The entries of all MCP servers, each with the tools discovered on it.
pub open spec fn servers_entries(servers: Seq<McpServerConfig>, tools: Seq<Vec<ToolDefinition>>) -> Seq<(Seq<char>, Seq<char>, Seq<char>, bool)>
    decreases servers.len(),
{
    if servers.len() == 0 {
        Seq::empty()
    } else {
        servers_entries(servers.drop_last(), tools.drop_last()) + server_entries(servers.last(), tools.last()@)
    }
}

/// The system capabilities, always listed last.
pub open spec fn system_entries() -> Seq<(Seq<char>, Seq<char>, Seq<char>, bool)> {
    seq![
        ("thinking_chain"@, "显示/隐藏模型的推理思考过程（支持 DeepSeek R1、Qwen QwQ 等）"@, "system"@, true),
        ("context_compression"@, "对话超 100K tokens 时自动摘要压缩早期消息"@, "system"@, true),
        ("multi_provider"@, "多模型供应商支持：OpenAI、Anthropic、DeepSeek、通义千问、Groq、Ollama"@, "system"@, true),
        ("workspace"@, "工作区面板：打开本地文件夹，AI 可在工作目录内读写文件"@, "system"@, true),
    ]
}

/// The whole panel: built-in tools, then the MCP servers' entries, then the
/// installed skills, then the system capabilities.
pub open spec fn available_skills(
    builtin: Seq<ToolDefinition>,
    servers: Seq<McpServerConfig>,
    tools: Seq<Vec<ToolDefinition>>,
    installed: Seq<InstalledSkill>,
) -> Seq<(Seq<char>, Seq<char>, Seq<char>, bool)> {
    builtin.map_values(|d: ToolDefinition| builtin_entry(d)) + servers_entries(servers, tools)
        + installed.map_values(|s: InstalledSkill| installed_entry(s)) + system_entries()
}

fn copy_string(s: &String) -> (r: String)
    ensures
        r@ == s@,
{
    s.as_str().to_owned()
}

/// The category of a built-in tool.
pub fn builtin_category_of(name: &str) -> (r: String)
    ensures
        r@ == builtin_category(name@),
{
    if str_equal(name, "read_file") || str_equal(name, "write_file")
        || str_equal(name, "delete_file") || str_equal(name, "list_directory") {
        "file".to_owned()
    } else if str_equal(name, "run_command") {
        "command".to_owned()
    } else {
        "builtin".to_owned()
    }
}

/// The entry of a built-in tool.
pub fn builtin_skill(d: &ToolDefinition) -> (r: SkillInfo)
    ensures
        skill_v(r) == builtin_entry(*d),
{
    SkillInfo {
        name: copy_string(&d.name),
        description: copy_string(&d.description),
        category: builtin_category_of(d.name.as_str()),
        enabled: true,
    }
}

/// The entry of a tool offered by the enabled MCP server `server`.
pub fn mcp_tool_skill(server: &str, d: &ToolDefinition) -> (r: SkillInfo)
    ensures
        skill_v(r) == mcp_tool_entry(server@, *d),
{
    let mut cat: Vec<char> = Vec::new();
    append_str(&mut cat, "mcp/");
    append_str(&mut cat, server);
    SkillInfo {
        name: strip_prefix_str(d.name.as_str(), "mcp_"),
        description: strip_prefix_str(d.description.as_str(), "[MCP] "),
        category: string_from_chars(&cat),
        enabled: true,
    }
}

/// The entry of a disabled MCP server.
pub fn disabled_server_skill(s: &McpServerConfig) -> (r: SkillInfo)
    ensures
        skill_v(r) == disabled_server_entry(*s),
{
    let mut desc: Vec<char> = Vec::new();
    append_str(&mut desc, s.command.as_str());
    append_str(&mut desc, " (已禁用)");
    SkillInfo {
        name: copy_string(&s.name),
        description: string_from_chars(&desc),
        category: "mcp".to_owned(),
        enabled: false,
    }
}

/// The entries of one MCP server, given the tools discovered on it.
pub fn server_skills(s: &McpServerConfig, tools: &Vec<ToolDefinition>) -> (r: Vec<SkillInfo>)
    ensures
        skills_v(r@) == server_entries(*s, tools@),
{
    let mut out: Vec<SkillInfo> = Vec::new();
    if !s.enabled {
        out.push(disabled_server_skill(s));
        assert(skills_v(out@) =~= seq![disabled_server_entry(*s)]);
        return out;
    }
    let ghost want = tools@.map_values(|d: ToolDefinition| mcp_tool_entry(s.name@, d));
    let n = tools.len();
    let mut i: usize = 0;
    while i < n
        invariant
            n == tools.len(),
            i <= n,
            want == tools@.map_values(|d: ToolDefinition| mcp_tool_entry(s.name@, d)),
            skills_v(out@) == want.take(i as int),
        decreases n - i,
    {
        let e = mcp_tool_skill(s.name.as_str(), &tools[i]);
        let ghost before = out@;
        out.push(e);
        proof {
            assert(want[i as int] == mcp_tool_entry(s.name@, tools@[i as int]));
            assert(skills_v(out@) =~= skills_v(before).push(skill_v(e)));
            assert(want.take(i + 1) =~= want.take(i as int).push(want[i as int]));
        }
        i = i + 1;
    }
    assert(want.take(n as int) =~= want);
    out
}

/// The system capabilities.
pub fn system_skills() -> (r: Vec<SkillInfo>)
    ensures
        skills_v(r@) == system_entries(),
{
    let v = vec![
        SkillInfo {
            name: "thinking_chain".to_owned(),
            description: "显示/隐藏模型的推理思考过程（支持 DeepSeek R1、Qwen QwQ 等）".to_owned(),
            category: "system".to_owned(),
            enabled: true,
        },
        SkillInfo {
            name: "context_compression".to_owned(),
            description: "对话超 100K tokens 时自动摘要压缩早期消息".to_owned(),
            category: "system".to_owned(),
            enabled: true,
        },
        SkillInfo {
            name: "multi_provider".to_owned(),
            description: "多模型供应商支持：OpenAI、Anthropic、DeepSeek、通义千问、Groq、Ollama".to_owned(),
            category: "system".to_owned(),
            enabled: true,
        },
        SkillInfo {
            name: "workspace".to_owned(),
            description: "工作区面板：打开本地文件夹，AI 可在工作目录内读写文件".to_owned(),
            category: "system".to_owned(),
            enabled: true,
        },
    ];
    assert(skills_v(v@) =~= system_entries());
    v
}

/// Lists every skill: the built-in tools with their categories; for each
/// MCP server, in order, the tools discovered on it when it is enabled or a
/// disabled entry when it is not (`tools[i]` are the tools of `servers[i]`);
/// the installed skills; the system capabilities.
pub fn assemble_skills(
    builtin: &Vec<ToolDefinition>,
    servers: &Vec<McpServerConfig>,
    tools: &Vec<Vec<ToolDefinition>>,
    installed: &Vec<InstalledSkill>,
) -> (r: Vec<SkillInfo>)
    requires
        tools.len() == servers.len(),
    ensures
        skills_v(r@) == available_skills(builtin@, servers@, tools@, installed@),
{
    let ghost b = builtin@.map_values(|d: ToolDefinition| builtin_entry(d));
    let mut out: Vec<SkillInfo> = Vec::new();
    let mut i: usize = 0;
    while i < builtin.len()
        invariant
            i <= builtin.len(),
            b == builtin@.map_values(|d: ToolDefinition| builtin_entry(d)),
            skills_v(out@) == b.take(i as int),
        decreases builtin.len() - i,
    {
        let e = builtin_skill(&builtin[i]);
        let ghost before = out@;
        out.push(e);
        proof {
            assert(b[i as int] == builtin_entry(builtin@[i as int]));
            assert(skills_v(out@) =~= skills_v(before).push(skill_v(e)));
            assert(b.take(i + 1) =~= b.take(i as int).push(b[i as int]));
        }
        i = i + 1;
    }
    assert(b.take(builtin.len() as int) =~= b);
    let mut j: usize = 0;
    while j < servers.len()
        invariant
            j <= servers.len(),
            tools.len() == servers.len(),
            skills_v(out@) == b + servers_entries(servers@.take(j as int), tools@.take(j as int)),
        decreases servers.len() - j,
    {
        let mut more = server_skills(&servers[j], &tools[j]);
        let ghost before = out@;
        out.append(&mut more);
        proof {
            assert(servers@.take(j + 1).drop_last() =~= servers@.take(j as int));
            assert(tools@.take(j + 1).drop_last() =~= tools@.take(j as int));
            assert(skills_v(out@) =~= skills_v(before) + server_entries(servers@[j as int], tools@[j as int]@));
        }
        j = j + 1;
    }
    assert(servers@.take(servers.len() as int) =~= servers@);
    assert(tools@.take(tools.len() as int) =~= tools@);
    let ghost mid = out@;
    let ghost ins = installed@.map_values(|s: InstalledSkill| installed_entry(s));
    let mut k: usize = 0;
    while k < installed.len()
        invariant
            k <= installed.len(),
            ins == installed@.map_values(|s: InstalledSkill| installed_entry(s)),
            skills_v(out@) == skills_v(mid) + ins.take(k as int),
        decreases installed.len() - k,
    {
        let s = &installed[k];
        let e = SkillInfo {
            name: copy_string(&s.name),
            description: copy_string(&s.description),
            category: "skill".to_owned(),
            enabled: s.enabled,
        };
        let ghost before = out@;
        out.push(e);
        proof {
            assert(ins[k as int] == installed_entry(installed@[k as int]));
            assert(skill_v(e) == installed_entry(installed@[k as int]));
            assert(skills_v(out@) =~= skills_v(before).push(skill_v(e)));
            assert(ins.take(k + 1) =~= ins.take(k as int).push(ins[k as int]));
        }
        k = k + 1;
    }
    assert(ins.take(installed.len() as int) =~= ins);
    let ghost before_sys = out@;
    let mut sys = system_skills();
    out.append(&mut sys);
    assert(skills_v(out@) =~= skills_v(before_sys) + system_entries());
    out
}

} // verus!
