//! MCP servers: configuration, health records, and the messages of server
//! validation. The caller runs the processes and the storage.
use vstd::prelude::*;
use crate::text::{append_str, join, join_strings, decimal, decimal_chars, append_chars, str_chars, string_from_chars, trim_chars, trim_seq, views, byte_len, byte_len_exceeds, char_index_at_byte, cut_at_bytes, cut_str_at_bytes, prefix_chars_for_bytes, push_str};
use crate::json::{json_parses, parses};

verus! {

/// A configured MCP server.
#[derive(Debug, Clone)]
pub struct McpServerConfig {
    pub id: String,
    pub name: String,
    pub command: String,
    pub args: Vec<String>,
    pub enabled: bool,
}

/// Health of an MCP server.
#[derive(Debug, Clone, Copy, PartialEq, Eq, Structural)]
pub enum HealthStatus {
    Healthy,
    Degraded,
    Down,
}

/// Last health check of a server.
#[derive(Debug, Clone)]
pub struct McpHealth {
    pub server_id: String,
    pub status: HealthStatus,
    /// Seconds since the Unix epoch.
    pub last_check: i64,
    pub response_time_ms: i64,
    pub error_message: Option<String>,
}

/// Stored name of a health status.
pub open spec fn health_name(s: HealthStatus) -> Seq<char> {
    match s {
        HealthStatus::Healthy => "Healthy"@,
        HealthStatus::Degraded => "Degraded"@,
        HealthStatus::Down => "Down"@,
    }
}

/// Status read back from its stored name (unknown names read as down).
pub open spec fn health_parse(s: Seq<char>) -> HealthStatus {
    if s == "Healthy"@ {
        HealthStatus::Healthy
    } else if s == "Degraded"@ {
        HealthStatus::Degraded
    } else {
        HealthStatus::Down
    }
}

impl HealthStatus {
    /// The stored name (the variant name).
    pub fn as_name(&self) -> (r: String)
        ensures
            r@ == health_name(*self),
    {
        match self {
            HealthStatus::Healthy => "Healthy".to_owned(),
            HealthStatus::Degraded => "Degraded".to_owned(),
            HealthStatus::Down => "Down".to_owned(),
        }
    }

    /// Reads a stored name; anything unknown is `Down`.
    pub fn from_name(s: &str) -> (r: HealthStatus)
        ensures
            r == health_parse(s@),
    {
        if crate::agent::str_equal(s, "Healthy") {
            HealthStatus::Healthy
        } else if crate::agent::str_equal(s, "Degraded") {
            HealthStatus::Degraded
        } else {
            HealthStatus::Down
        }
    }
}

/// A health status survives being stored and read back.
pub proof fn law_health_roundtrip(s: HealthStatus)
    ensures
        health_parse(health_name(s)) == s,
{
    reveal_strlit("Healthy");
    reveal_strlit("Degraded");
    reveal_strlit("Down");
    assert("Degraded"@[0] != "Healthy"@[0]);
    assert("Down"@[1] != "Healthy"@[1]);
    assert("Down"@[1] != "Degraded"@[1]);
}

/// How a health check ended.
#[derive(Debug, Clone)]
pub enum CheckOutcome {
    /// The server listed its tools after this many milliseconds.
    Answered(i64),
    /// Tool discovery failed with this error.
    Failed(String),
    /// No answer within five seconds.
    TimedOut,
}

/// The health recorded for a check made at `now` (seconds): healthy with the
/// response time, or down with the error (a timeout counts 5000 ms).
pub fn health_after_check(server_id: &str, now: i64, outcome: CheckOutcome) -> (h: McpHealth)
    ensures
        h.server_id@ == server_id@,
        h.last_check == now,
        match outcome {
            CheckOutcome::Answered(ms) => h.status == HealthStatus::Healthy && h.response_time_ms == ms && h.error_message is None,
            CheckOutcome::Failed(e) => h.status == HealthStatus::Down && h.response_time_ms == 0 && h.error_message == Some(e),
            CheckOutcome::TimedOut => h.status == HealthStatus::Down && h.response_time_ms == 5000
                && (h.error_message matches Some(m) && m@ == "超时"@),
        },
{
    match outcome {
        CheckOutcome::Answered(ms) => McpHealth { server_id: server_id.to_owned(), status: HealthStatus::Healthy, last_check: now, response_time_ms: ms, error_message: None },
        CheckOutcome::Failed(e) => McpHealth { server_id: server_id.to_owned(), status: HealthStatus::Down, last_check: now, response_time_ms: 0, error_message: Some(e) },
        CheckOutcome::TimedOut => McpHealth { server_id: server_id.to_owned(), status: HealthStatus::Down, last_check: now, response_time_ms: 5000, error_message: Some("超时".to_owned()) },
    }
}

/// Outcome of validating a server.
#[derive(Debug, Clone)]
pub struct ValidationResult {
    pub success: bool,
    pub message: String,
    pub details: Option<ValidationDetails>,
}

/// What validation found out.
#[derive(Debug, Clone)]
pub struct ValidationDetails {
    pub command_exists: bool,
    pub command_version: Option<String>,
    pub tools_discovered: Option<Vec<String>>,
    pub response_time_ms: i64,
}

/// Installation guide shown when a command is missing.
pub open spec fn not_found_text(command: Seq<char>) -> Seq<char> {
    if command == "uvx"@ || command == "uv"@ {
        "\n❌ 命令 'uvx' 未找到\n\nuv/uvx 是 Python 包管理工具，用于运行 Python MCP 服务器。\n\n📦 安装方法：\n\nWindows (PowerShell):\n  powershell -c \"irm https://astral.sh/uv/install.ps1 | iex\"\n\nmacOS/Linux:\n  curl -LsSf https://astral.sh/uv/install.sh | sh\n\n✅ 验证安装：\n  在终端运行: uvx --version\n\n📚 详细文档：https://docs.astral.sh/uv/\n"@
    } else if command == "npx"@ {
        "\n❌ 命令 'npx' 未找到\n\nnpx 是 Node.js 包运行工具，用于运行 JavaScript MCP 服务器。\n\n📦 安装方法：\n\n1. 下载并安装 Node.js:\n   https://nodejs.org/\n\n2. 选择 LTS（长期支持）版本\n\n3. 安装完成后，npx 会自动包含在内\n\n✅ 验证安装：\n  在终端运行: npx --version\n\n📚 详细文档：https://nodejs.org/\n"@
    } else if command == "node"@ {
        "\n❌ 命令 'node' 未找到\n\nNode.js 是 JavaScript 运行环境，用于运行 JavaScript MCP 服务器。\n\n📦 安装方法：\n\n下载并安装 Node.js:\n  https://nodejs.org/\n\n选择 LTS（长期支持）版本\n\n✅ 验证安装：\n  在终端运行: node --version\n\n📚 详细文档：https://nodejs.org/\n"@
    } else if command == "python"@ || command == "python3"@ {
        "\n❌ 命令 'python' 未找到\n\nPython 是编程语言，用于运行 Python MCP 服务器。\n\n📦 安装方法：\n\nWindows:\n  https://www.python.org/downloads/\n\nmacOS:\n  brew install python3\n\nLinux:\n  sudo apt install python3  # Ubuntu/Debian\n  sudo yum install python3  # CentOS/RHEL\n\n✅ 验证安装：\n  在终端运行: python --version\n\n📚 详细文档：https://www.python.org/\n"@
    } else {
        "\n❌ 命令 '"@ + command + "' 未找到\n\n请确保已安装相关依赖，并将其添加到系统 PATH 环境变量。\n\n💡 提示：\n1. 检查命令是否正确拼写\n2. 确认已安装相关软件\n3. 重启应用以刷新环境变量\n4. 在终端运行命令验证是否可用\n"@
    }
}

/// The installation guide for a missing command.
pub fn format_command_not_found_error(command: &str) -> (r: String)
    ensures
        r@ == not_found_text(command@),
{
    let eq = |s: &str| -> (b: bool) ensures b == (command@ == s@) { crate::agent::str_equal(command, s) };
    if eq("uvx") || eq("uv") {
        "\n❌ 命令 'uvx' 未找到\n\nuv/uvx 是 Python 包管理工具，用于运行 Python MCP 服务器。\n\n📦 安装方法：\n\nWindows (PowerShell):\n  powershell -c \"irm https://astral.sh/uv/install.ps1 | iex\"\n\nmacOS/Linux:\n  curl -LsSf https://astral.sh/uv/install.sh | sh\n\n✅ 验证安装：\n  在终端运行: uvx --version\n\n📚 详细文档：https://docs.astral.sh/uv/\n".to_owned()
    } else if eq("npx") {
        "\n❌ 命令 'npx' 未找到\n\nnpx 是 Node.js 包运行工具，用于运行 JavaScript MCP 服务器。\n\n📦 安装方法：\n\n1. 下载并安装 Node.js:\n   https://nodejs.org/\n\n2. 选择 LTS（长期支持）版本\n\n3. 安装完成后，npx 会自动包含在内\n\n✅ 验证安装：\n  在终端运行: npx --version\n\n📚 详细文档：https://nodejs.org/\n".to_owned()
    } else if eq("node") {
        "\n❌ 命令 'node' 未找到\n\nNode.js 是 JavaScript 运行环境，用于运行 JavaScript MCP 服务器。\n\n📦 安装方法：\n\n下载并安装 Node.js:\n  https://nodejs.org/\n\n选择 LTS（长期支持）版本\n\n✅ 验证安装：\n  在终端运行: node --version\n\n📚 详细文档：https://nodejs.org/\n".to_owned()
    } else if eq("python") || eq("python3") {
        "\n❌ 命令 'python' 未找到\n\nPython 是编程语言，用于运行 Python MCP 服务器。\n\n📦 安装方法：\n\nWindows:\n  https://www.python.org/downloads/\n\nmacOS:\n  brew install python3\n\nLinux:\n  sudo apt install python3  # Ubuntu/Debian\n  sudo yum install python3  # CentOS/RHEL\n\n✅ 验证安装：\n  在终端运行: python --version\n\n📚 详细文档：https://www.python.org/\n".to_owned()
    } else {
        let mut out: Vec<char> = Vec::new();
        append_str(&mut out, "\n❌ 命令 '");
        append_str(&mut out, command);
        append_str(&mut out, "' 未找到\n\n请确保已安装相关依赖，并将其添加到系统 PATH 环境变量。\n\n💡 提示：\n1. 检查命令是否正确拼写\n2. 确认已安装相关软件\n3. 重启应用以刷新环境变量\n4. 在终端运行命令验证是否可用\n");
        string_from_chars(&out)
    }
}

/// The shell command that looks a program up.
pub fn lookup_command(command: &str) -> (r: String)
    ensures
        r@ == "which "@ + command@,
{
    let mut out: Vec<char> = Vec::new();
    append_str(&mut out, "which ");
    append_str(&mut out, command);
    string_from_chars(&out)
}

/// A program's version from the output of `--version`: its standard output,
/// else its standard error (trimmed), when the run succeeded and said
/// something.
pub fn version_from_output(success: bool, stdout: &str, stderr: &str) -> (r: Result<String, String>)
    ensures
        success && trim_seq(stdout@).len() > 0 ==> (r matches Ok(v) && v@ == trim_seq(stdout@)),
        success && trim_seq(stdout@).len() == 0 && trim_seq(stderr@).len() > 0 ==> (r matches Ok(v) && v@ == trim_seq(stderr@)),
        !(success && (trim_seq(stdout@).len() > 0 || trim_seq(stderr@).len() > 0)) ==> (r matches Err(e) && e@ == "无法获取版本信息"@),
{
    if success {
        let o = str_chars(stdout);
        let t = trim_chars(&o);
        if t.len() > 0 {
            return Ok(string_from_chars(&t));
        }
        let e = str_chars(stderr);
        let t2 = trim_chars(&e);
        if t2.len() > 0 {
            return Ok(string_from_chars(&t2));
        }
    }
    Err("无法获取版本信息".to_owned())
}

/// How server start-up ended during validation.
#[derive(Debug, Clone)]
pub enum ValidationOutcome {
    /// The server listed these tools.
    Tools(Vec<String>),
    /// It failed with this error.
    Failed(String),
    /// No answer within fifteen seconds.
    TimedOut,
}

pub open spec fn success_text(command: Seq<char>, version: Seq<char>, count: nat, ms: int) -> Seq<char> {
    "✅ MCP 服务器验证成功！\n\n命令: "@ + command + "\n版本: "@ + version + "\n发现工具: "@ + decimal(count)
        + " 个\n响应时间: "@ + crate::text::signed_decimal(ms) + " ms"@
}

pub open spec fn failure_text(command: Seq<char>, version: Seq<char>, err: Seq<char>, args: Seq<char>) -> Seq<char> {
    "❌ MCP 服务器启动失败\n\n命令: "@ + command + "\n版本: "@ + version + "\n错误: "@ + err
        + "\n\n💡 可能的原因：\n1. MCP 服务器包未安装或不存在\n2. 网络连接问题（无法下载包）\n3. 参数配置错误\n4. 服务器代码有错误\n\n🔧 建议：\n1. 检查包名是否正确\n2. 确认网络连接正常\n3. 在终端手动运行命令测试：\n"@ + command + " "@ + args
}

pub open spec fn timeout_text(command: Seq<char>, version: Seq<char>, args: Seq<char>) -> Seq<char> {
    "❌ MCP 服务器启动超时（15 秒）\n\n命令: "@ + command + "\n版本: "@ + version + "\n\n💡 可能的原因：\n1. 首次运行需要下载依赖（可能需要更长时间）\n2. 网络速度慢\n3. 服务器启动过程卡住\n\n🔧 建议：\n1. 在终端手动运行命令，观察输出：\n"@ + command
        + " "@ + args + "\n2. 等待下载完成后再添加\n3. 检查网络连接"@
}

/// Validation result for a command that is missing.
pub fn missing_command_result(error: String, response_time_ms: i64) -> (r: ValidationResult)
    ensures
        !r.success,
        r.message == error,
        r.details matches Some(d) && !d.command_exists && d.command_version is None && d.tools_discovered is None
            && d.response_time_ms == response_time_ms,
{
    ValidationResult {
        success: false,
        message: error,
        details: Some(ValidationDetails { command_exists: false, command_version: None, tools_discovered: None, response_time_ms }),
    }
}

/// Validation result once the server was started.
pub fn validation_result(command: &str, args: &Vec<String>, version: &str, outcome: ValidationOutcome, response_time_ms: i64) -> (r: ValidationResult)
    ensures
        r.details matches Some(d) && d.command_exists && (d.command_version matches Some(v) && v@ == version@)
            && d.response_time_ms == response_time_ms,
        match outcome {
            ValidationOutcome::Tools(names) => r.success && r.message@ == success_text(command@, version@, names@.len(), response_time_ms as int)
                && (r.details matches Some(d) && d.tools_discovered == Some(names)),
            ValidationOutcome::Failed(e) => !r.success && r.message@ == failure_text(command@, version@, e@, join(views(args@), " "@))
                && (r.details matches Some(d) && d.tools_discovered is None),
            ValidationOutcome::TimedOut => !r.success && r.message@ == timeout_text(command@, version@, join(views(args@), " "@))
                && (r.details matches Some(d) && d.tools_discovered is None),
        },
{
    let joined = join_strings(args, " ");
    let mut out: Vec<char> = Vec::new();
    match outcome {
        ValidationOutcome::Tools(names) => {
            append_str(&mut out, "✅ MCP 服务器验证成功！\n\n命令: ");
            append_str(&mut out, command);
            append_str(&mut out, "\n版本: ");
            append_str(&mut out, version);
            append_str(&mut out, "\n发现工具: ");
            let c = decimal_chars(names.len());
            append_chars(&mut out, &c);
            append_str(&mut out, " 个\n响应时间: ");
            let m = crate::text::signed_decimal_chars(response_time_ms);
            append_chars(&mut out, &m);
            append_str(&mut out, " ms");
            ValidationResult {
                success: true,
                message: string_from_chars(&out),
                details: Some(ValidationDetails { command_exists: true, command_version: Some(version.to_owned()), tools_discovered: Some(names), response_time_ms }),
            }
        },
        ValidationOutcome::Failed(e) => {
            append_str(&mut out, "❌ MCP 服务器启动失败\n\n命令: ");
            append_str(&mut out, command);
            append_str(&mut out, "\n版本: ");
            append_str(&mut out, version);
            append_str(&mut out, "\n错误: ");
            append_str(&mut out, e.as_str());
            append_str(&mut out, "\n\n💡 可能的原因：\n1. MCP 服务器包未安装或不存在\n2. 网络连接问题（无法下载包）\n3. 参数配置错误\n4. 服务器代码有错误\n\n🔧 建议：\n1. 检查包名是否正确\n2. 确认网络连接正常\n3. 在终端手动运行命令测试：\n");
            append_str(&mut out, command);
            append_str(&mut out, " ");
            append_str(&mut out, joined.as_str());
            ValidationResult {
                success: false,
                message: string_from_chars(&out),
                details: Some(ValidationDetails { command_exists: true, command_version: Some(version.to_owned()), tools_discovered: None, response_time_ms }),
            }
        },
        ValidationOutcome::TimedOut => {
            append_str(&mut out, "❌ MCP 服务器启动超时（15 秒）\n\n命令: ");
            append_str(&mut out, command);
            append_str(&mut out, "\n版本: ");
            append_str(&mut out, version);
            append_str(&mut out, "\n\n💡 可能的原因：\n1. 首次运行需要下载依赖（可能需要更长时间）\n2. 网络速度慢\n3. 服务器启动过程卡住\n\n🔧 建议：\n1. 在终端手动运行命令，观察输出：\n");
            append_str(&mut out, command);
            append_str(&mut out, " ");
            append_str(&mut out, joined.as_str());
            append_str(&mut out, "\n2. 等待下载完成后再添加\n3. 检查网络连接");
            ValidationResult {
                success: false,
                message: string_from_chars(&out),
                details: Some(ValidationDetails { command_exists: true, command_version: Some(version.to_owned()), tools_discovered: None, response_time_ms }),
            }
        },
    }
}

/// A tool as an MCP server lists it: its `name` and `description` strings
/// and its `inputSchema` as JSON text, each when present.
#[derive(Debug, Clone)]
pub struct ListedTool {
    pub name: Option<String>,
    pub description: Option<String>,
    pub input_schema: Option<String>,
}

/// The schema given to a tool that lists none: an object without
/// properties.
pub open spec fn empty_schema() -> Seq<char> {
    "{\"properties\":{},\"type\":\"object\"}"@
}

/// The definition offered to the model for a listed tool: named `mcp_` and
/// its name, described `[MCP] ` and its description.
pub open spec fn listed_def(t: ListedTool) -> (Seq<char>, Seq<char>, Seq<char>) {
    (
        "mcp_"@ + crate::providers::anthropic::text_or(t.name, Seq::empty()),
        "[MCP] "@ + crate::providers::anthropic::text_or(t.description, Seq::empty()),
        crate::providers::anthropic::text_or(t.input_schema, empty_schema()),
    )
}

/// The definitions of the listed tools that have a non-empty name, in
/// order.
pub open spec fn listed_defs(ts: Seq<ListedTool>) -> Seq<(Seq<char>, Seq<char>, Seq<char>)>
    decreases ts.len(),
{
    if ts.len() == 0 {
        Seq::empty()
    } else {
        let p = listed_defs(ts.drop_last());
        if crate::providers::anthropic::text_or(ts.last().name, Seq::empty()).len() > 0 {
            p.push(listed_def(ts.last()))
        } else {
            p
        }
    }
}

/// The plain values of tool definitions.
pub open spec fn defs_v(ds: Seq<crate::providers::types::ToolDefinition>) -> Seq<(Seq<char>, Seq<char>, Seq<char>)> {
    ds.map_values(|d: crate::providers::types::ToolDefinition| (d.name@, d.description@, d.parameters@))
}

fn text_or_empty(o: &Option<String>) -> (r: String)
    ensures
        r@ == crate::providers::anthropic::text_or(*o, Seq::empty()),
{
    match o {
        Some(s) => s.clone(),
        None => String::new(),
    }
}

/// The tool definitions of an MCP server's `tools/list` answer.
pub fn listed_tool_definitions(tools: &Vec<ListedTool>) -> (r: Vec<crate::providers::types::ToolDefinition>)
    ensures
        defs_v(r@) == listed_defs(tools@),
{
    let mut out: Vec<crate::providers::types::ToolDefinition> = Vec::new();
    let mut i: usize = 0;
    while i < tools.len()
        invariant
            i <= tools.len(),
            defs_v(out@) == listed_defs(tools@.take(i as int)),
        decreases tools.len() - i,
    {
        proof {
            assert(tools@.take(i + 1).drop_last() =~= tools@.take(i as int));
        }
        let t = &tools[i];
        let name = text_or_empty(&t.name);
        if name.as_str().unicode_len() > 0 {
            let mut n: Vec<char> = Vec::new();
            append_str(&mut n, "mcp_");
            append_str(&mut n, name.as_str());
            let mut d: Vec<char> = Vec::new();
            append_str(&mut d, "[MCP] ");
            let desc = text_or_empty(&t.description);
            append_str(&mut d, desc.as_str());
            let schema = match &t.input_schema {
                Some(s) => s.clone(),
                None => "{\"properties\":{},\"type\":\"object\"}".to_owned(),
            };
            let def = crate::providers::types::ToolDefinition {
                name: string_from_chars(&n),
                description: string_from_chars(&d),
                parameters: schema,
            };
            let ghost before = out@;
            out.push(def);
            assert(defs_v(out@) =~= defs_v(before).push(listed_def(tools@[i as int])));
        }
        i = i + 1;
        assert(defs_v(out@) =~= listed_defs(tools@.take(i as int)));
    }
    assert(tools@.take(tools.len() as int) =~= tools@);
    out
}

/// The text items of a tool call's answer (`text`, or else `value`, of each
/// content item that has one), one per line.
pub open spec fn call_text(items: Seq<Option<Seq<char>>>) -> Seq<char> {
    crate::text::join(
        items.filter(|o: Option<Seq<char>>| o is Some).map_values(|o: Option<Seq<char>>| o.unwrap()),
        "\n"@,
    )
}

/// The answer of an MCP `tools/call`: an error (its JSON text) fails it;
/// otherwise its content items' texts joined by lines, or the whole
/// `result` as JSON text when it has no content list.
pub fn call_outcome(error: Option<String>, items: Option<Vec<Option<String>>>, result_json: String) -> (r: Result<String, String>)
    ensures
        error matches Some(e) ==> (r matches Err(m) && m@ == "MCP 工具调用错误: "@ + e@),
        error is None && items is None ==> r == Ok::<String, String>(result_json),
        error is None ==> (items matches Some(v) ==> (r matches Ok(t)
            && t@ == call_text(v@.map_values(|o: Option<String>| crate::providers::types::opt_view(o))))),
{
    if let Some(e) = error {
        let mut m: Vec<char> = Vec::new();
        append_str(&mut m, "MCP 工具调用错误: ");
        append_str(&mut m, e.as_str());
        return Err(string_from_chars(&m));
    }
    match items {
        None => Ok(result_json),
        Some(v) => {
            let ghost iv = v@.map_values(|o: Option<String>| crate::providers::types::opt_view(o));
            let mut texts: Vec<String> = Vec::new();
            let mut i: usize = 0;
            while i < v.len()
                invariant
                    i <= v.len(),
                    iv == v@.map_values(|o: Option<String>| crate::providers::types::opt_view(o)),
                    crate::text::views(texts@) == iv.take(i as int).filter(|o: Option<Seq<char>>| o is Some)
                        .map_values(|o: Option<Seq<char>>| o.unwrap()),
                decreases v.len() - i,
            {
                proof {
                    assert(iv.take(i + 1).drop_last() =~= iv.take(i as int));
                    iv.take(i as int).lemma_filter_push(iv[i as int], |o: Option<Seq<char>>| o is Some);
                    assert(iv.take(i + 1) =~= iv.take(i as int).push(iv[i as int]));
                }
                match &v[i] {
                    Some(t) => {
                        let ghost before = texts@;
                        texts.push(t.clone());
                        assert(crate::text::views(texts@) =~= crate::text::views(before).push(t@));
                    },
                    None => {},
                }
                i = i + 1;
                assert(crate::text::views(texts@) =~= iv.take(i as int).filter(|o: Option<Seq<char>>| o is Some)
                    .map_values(|o: Option<Seq<char>>| o.unwrap()));
            }
            assert(iv.take(v.len() as int) =~= iv);
            Ok(crate::text::join_strings(&texts, "\n"))
        },
    }
}

/// The outcome of a JSON-RPC request on a persistent MCP connection, from
/// its reply: the reply's `error` (its JSON text) fails it; otherwise its
/// `result` (its JSON text) is the answer; a reply with neither fails.
pub fn rpc_reply(error: Option<String>, result: Option<String>) -> (r: Result<String, String>)
    ensures
        error matches Some(e) ==> (r matches Err(m) && m@ == "MCP error: "@ + e@),
        error is None ==> (result matches Some(v) ==> (r matches Ok(t) && t@ == v@)),
        error is None && result is None ==> (r matches Err(m) && m@ == "No result in response"@),
{
    match error {
        Some(e) => {
            let mut m: Vec<char> = Vec::new();
            append_str(&mut m, "MCP error: ");
            append_str(&mut m, e.as_str());
            Err(string_from_chars(&m))
        },
        None => match result {
            Some(v) => Ok(v),
            None => Err("No result in response".to_owned()),
        },
    }
}

/// Number of `\n` in a text.
pub open spec fn newline_count(s: Seq<char>) -> nat
    decreases s.len(),
{
    if s.len() == 0 {
        0
    } else {
        newline_count(s.drop_last()) + if s.last() == '\n' {
            1nat
        } else {
            0nat
        }
    }
}

/// Number of lines `str::lines` gives: one per `\n`, and one more for a
/// last line without it.
pub open spec fn line_count(s: Seq<char>) -> nat {
    newline_count(s) + if s.len() > 0 && s.last() != '\n' {
        1nat
    } else {
        0nat
    }
}

/// The answer of an MCP server read so far, line after line.
pub struct McpReply {
    pub buffer: String,
}

/// What reading one more line of an answer gives.
#[derive(Debug, Clone)]
pub enum ReplyStep {
    /// The text read so far is JSON: the answer.
    Parsed(String),
    /// More than 50 lines without JSON: the error, with the first 200 bytes.
    TooManyLines(String),
    /// More than 50 lines, and byte 200 falls inside a character, where the
    /// cut of the preview fails.
    CutInsideChar,
    /// Read on.
    Continue,
}

impl McpReply {
    /// Nothing read yet.
    pub fn new() -> (r: McpReply)
        ensures
            r.buffer@.len() == 0,
    {
        McpReply { buffer: String::new() }
    }

    /// Adds one line (without its line end) to the answer: when the text
    /// read so far is JSON it is the answer; past 50 lines it fails with a
    /// preview of its first 200 bytes; otherwise reading goes on.
    pub fn push_line(&mut self, line: &str) -> (r: ReplyStep)
        ensures
            final(self).buffer@ == old(self).buffer@ + line@,
            ({
                let b = old(self).buffer@ + line@;
                if json_parses(b) {
                    r matches ReplyStep::Parsed(t) && t@ == b
                } else if line_count(b) > 50 {
                    if byte_len(b) > 200 && prefix_chars_for_bytes(b, 200) is None {
                        r is CutInsideChar
                    } else {
                        r matches ReplyStep::TooManyLines(m) && m@ == "响应行数过多: "@ + cut_at_bytes(b, 200)
                            + "..."@
                    }
                } else {
                    r is Continue
                }
            }),
    {
        push_str(&mut self.buffer, line);
        let b = self.buffer.as_str();
        if parses(b) {
            return ReplyStep::Parsed(self.buffer.clone());
        }
        let cs = str_chars(b);
        let mut newlines: usize = 0;
        let mut i: usize = 0;
        while i < cs.len()
            invariant
                i <= cs@.len(),
                newlines == newline_count(cs@.take(i as int)),
                newlines <= i,
            decreases cs.len() - i,
        {
            assert(cs@.take(i + 1).drop_last() =~= cs@.take(i as int));
            if cs[i] == '\n' {
                newlines = newlines + 1;
            }
            i = i + 1;
        }
        assert(cs@.take(i as int) =~= cs@);
        let last_open = cs.len() > 0 && cs[cs.len() - 1] != '\n';
        let within = if last_open { newlines < 50 } else { newlines <= 50 };
        if within {
            return ReplyStep::Continue;
        }
        if byte_len_exceeds(&cs, 200) {
            match char_index_at_byte(&cs, 200) {
                None => {
                    return ReplyStep::CutInsideChar;
                },
                Some(_) => {},
            }
        }
        let cut = cut_str_at_bytes(b, 200);
        let mut out: Vec<char> = Vec::new();
        append_str(&mut out, "响应行数过多: ");
        append_chars(&mut out, &cut);
        append_str(&mut out, "...");
        ReplyStep::TooManyLines(string_from_chars(&out))
    }
}

} // verus!
