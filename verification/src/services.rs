//! Smaller services: the HTTP server's settings, tool metrics, the vector
//! index settings, session migration, agent instruction files, checkpoints,
//! skills and provider kinds.
use vstd::prelude::*;
use crate::domain::{TurnItem};
use crate::text::{append_str, string_from_chars};

verus! {

/// The local HTTP API server.
pub struct HttpServer {
    port: u16,
}

impl HttpServer {
    /// A server for the port.
    pub fn new(port: u16) -> (r: HttpServer)
        ensures
            r.port_of() == port,
    {
        HttpServer { port }
    }

    /// The port, for specifications.
    pub closed spec fn port_of(&self) -> u16 {
        self.port
    }

    /// The port it listens on.
    pub fn port(&self) -> (p: u16)
        ensures
            p == self.port_of(),
    {
        self.port
    }
}

/// One recorded tool execution.
#[derive(Debug, Clone)]
pub struct ToolMetrics {
    pub tool_name: String,
    pub execution_time_ms: i64,
    pub success: bool,
    /// Seconds since the Unix epoch.
    pub timestamp: i64,
}

/// The oldest timestamp (seconds) kept when keeping the last `keep_days`
/// days as of `now` (seconds).
pub fn metrics_cutoff(now: i64, keep_days: i64) -> (c: i64)
    requires
        i64::MIN <= keep_days * 86400 <= i64::MAX,
        i64::MIN <= now - keep_days * 86400 <= i64::MAX,
    ensures
        c == now - keep_days * 86400,
{
    now - keep_days * 86400
}

/// Settings of the vector index.
#[derive(Debug, Clone)]
pub struct VectorConfig {
    pub model: String,
    pub dimension: usize,
}

/// Outcome of migrating the old session files.
#[derive(Debug, Clone)]
pub struct MigrationReport {
    pub total: usize,
    pub success: usize,
    pub errors: Vec<String>,
}

/// Failure of a migration step.
#[derive(Debug, Clone)]
pub enum MigrationError {
    NoHomeDir,
    BackupFailed(String),
    ReadFailed(String),
    ParseFailed(String),
    StoreFailed(String),
}

/// Text of a migration error.
pub open spec fn migration_error_text(e: MigrationError) -> Seq<char> {
    match e {
        MigrationError::NoHomeDir => "No home directory"@,
        MigrationError::BackupFailed(s) => "Backup failed: "@ + s@,
        MigrationError::ReadFailed(s) => "Read failed: "@ + s@,
        MigrationError::ParseFailed(s) => "Parse failed: "@ + s@,
        MigrationError::StoreFailed(s) => "Store failed: "@ + s@,
    }
}

fn prefixed(prefix: &str, s: &str) -> (r: String)
    ensures
        r@ == prefix@ + s@,
{
    let mut out: Vec<char> = Vec::new();
    append_str(&mut out, prefix);
    append_str(&mut out, s);
    string_from_chars(&out)
}

impl MigrationError {
    /// The error's message.
    pub fn to_text(&self) -> (r: String)
        ensures
            r@ == migration_error_text(*self),
    {
        match self {
            MigrationError::NoHomeDir => "No home directory".to_owned(),
            MigrationError::BackupFailed(s) => prefixed("Backup failed: ", s.as_str()),
            MigrationError::ReadFailed(s) => prefixed("Read failed: ", s.as_str()),
            MigrationError::ParseFailed(s) => prefixed("Parse failed: ", s.as_str()),
            MigrationError::StoreFailed(s) => prefixed("Store failed: ", s.as_str()),
        }
    }
}

impl MigrationReport {
    /// Nothing migrated yet.
    pub fn new() -> (r: MigrationReport)
        ensures
            r.total == 0,
            r.success == 0,
            r.errors@.len() == 0,
    {
        MigrationReport { total: 0, success: 0, errors: Vec::new() }
    }

    /// One more session file migrated.
    pub fn record_success(&mut self)
        requires
            old(self).total < usize::MAX,
            old(self).success < usize::MAX,
        ensures
            final(self).total == old(self).total + 1,
            final(self).success == old(self).success + 1,
            final(self).errors == old(self).errors,
    {
        self.total = self.total + 1;
        self.success = self.success + 1;
    }

    /// One more session file failed, with the path shown and the error.
    pub fn record_failure(&mut self, path: &str, error: &MigrationError)
        requires
            old(self).total < usize::MAX,
        ensures
            final(self).total == old(self).total + 1,
            final(self).success == old(self).success,
            final(self).errors@.len() == old(self).errors@.len() + 1,
            final(self).errors@.drop_last() == old(self).errors@,
            final(self).errors@.last()@ == path@ + ": "@ + migration_error_text(*error),
    {
        self.total = self.total + 1;
        let mut out: Vec<char> = Vec::new();
        append_str(&mut out, path);
        append_str(&mut out, ": ");
        let t = error.to_text();
        append_str(&mut out, t.as_str());
        self.errors.push(string_from_chars(&out));
        assert(self.errors@.drop_last() =~= old(self).errors@);
    }
}

/// A message of an old session file.
#[derive(Debug, Clone)]
pub struct OldMessage {
    pub role: String,
    pub content: String,
}

/// The item a migrated message becomes: user and assistant messages only.
pub fn migrated_item(m: OldMessage) -> (r: Option<TurnItem>)
    ensures
        m.role@ == "user"@ ==> (r matches Some(TurnItem::UserMessage { text, attachments }) && text == m.content && attachments@.len() == 0),
        m.role@ == "assistant"@ ==> r == Some(TurnItem::AssistantText { text: m.content }),
        m.role@ != "user"@ && m.role@ != "assistant"@ ==> r is None,
{
    proof {
        reveal_strlit("user");
        reveal_strlit("assistant");
        assert("user"@[0] != "assistant"@[0]);
    }
    if crate::agent::str_equal(m.role.as_str(), "user") {
        Some(TurnItem::UserMessage { text: m.content, attachments: Vec::new() })
    } else if crate::agent::str_equal(m.role.as_str(), "assistant") {
        Some(TurnItem::AssistantText { text: m.content })
    } else {
        None
    }
}

/// Title of a migrated session (`Migrated Session` when it had none).
pub fn migrated_title(title: Option<String>) -> (r: String)
    ensures
        match title {
            Some(t) => r == t,
            None => r@ == "Migrated Session"@,
        },
{
    match title {
        Some(t) => t,
        None => "Migrated Session".to_owned(),
    }
}

/// The agent instruction files (`AGENT.md`) found, and their merged text.
#[derive(Debug, Clone)]
pub struct AgentConfig {
    pub found: bool,
    pub global_content: String,
    pub global_path: String,
    pub workspace_content: String,
    pub workspace_path: String,
    pub merged: String,
}

/// Merged instructions: the workspace file extends the global one.
pub open spec fn merged_instructions(global: Seq<char>, workspace: Seq<char>) -> Seq<char> {
    if workspace.len() == 0 {
        global
    } else if global.len() == 0 {
        workspace
    } else {
        global + "\n\n---\n\n"@ + workspace
    }
}

impl AgentConfig {
    /// The configuration from the global and workspace files (empty path and
    /// content where a file is missing).
    pub fn from_files(global_path: String, global_content: String, workspace_path: String, workspace_content: String) -> (r: AgentConfig)
        ensures
            r.found == (global_content@.len() > 0 || workspace_content@.len() > 0),
            r.merged@ == merged_instructions(global_content@, workspace_content@),
            r.global_content == global_content,
            r.global_path == global_path,
            r.workspace_content == workspace_content,
            r.workspace_path == workspace_path,
    {
        let found = global_content.as_str().unicode_len() > 0 || workspace_content.as_str().unicode_len() > 0;
        let merged = if workspace_content.as_str().unicode_len() == 0 {
            global_content.clone()
        } else if global_content.as_str().unicode_len() == 0 {
            workspace_content.clone()
        } else {
            let mut out: Vec<char> = Vec::new();
            append_str(&mut out, global_content.as_str());
            append_str(&mut out, "\n\n---\n\n");
            append_str(&mut out, workspace_content.as_str());
            string_from_chars(&out)
        };
        AgentConfig { found, global_content, global_path, workspace_content, workspace_path, merged }
    }
}

/// A conversation saved when it was interrupted.
#[derive(Debug, Clone)]
pub struct Checkpoint {
    pub messages: Vec<CheckpointMessage>,
    pub provider_id: String,
    pub model: String,
    pub work_dir: String,
    pub saved_at: u64,
}

/// A message of a checkpoint.
#[derive(Debug, Clone)]
pub struct CheckpointMessage {
    pub role: String,
    pub content: String,
    pub thinking: Option<String>,
}

/// A skill as listed to the user.
#[derive(Debug, Clone)]
pub struct SkillInfo {
    pub name: String,
    pub description: String,
    /// `file`, `command`, `mcp`, `system` or `skill`.
    pub category: String,
    pub enabled: bool,
}

/// Stream chunks collected for a polling client.
#[derive(Debug, Clone)]
pub struct StreamResponse {
    pub chunks: Vec<crate::providers::types::StreamChunk>,
    pub done: bool,
}

/// The kind of an LLM provider.
#[derive(Debug, Clone, Copy, PartialEq, Eq, Structural)]
pub enum ProviderType {
    OpenAICompat,
    Anthropic,
}

/// Failure of a provider call.
#[derive(Debug, Clone)]
pub enum ProviderError {
    /// The HTTP request failed (the transport error's text).
    HttpError(String),
    ApiError(String),
    StreamError(String),
}

/// Text of a provider error.
pub open spec fn provider_error_text(e: ProviderError) -> Seq<char> {
    match e {
        ProviderError::HttpError(s) => "HTTP 请求失败: "@ + s@,
        ProviderError::ApiError(s) => "API 错误: "@ + s@,
        ProviderError::StreamError(s) => "流式传输中断: "@ + s@,
    }
}

impl ProviderError {
    /// The error's message.
    pub fn to_text(&self) -> (r: String)
        ensures
            r@ == provider_error_text(*self),
    {
        match self {
            ProviderError::HttpError(s) => prefixed("HTTP 请求失败: ", s.as_str()),
            ProviderError::ApiError(s) => prefixed("API 错误: ", s.as_str()),
            ProviderError::StreamError(s) => prefixed("流式传输中断: ", s.as_str()),
        }
    }
}

/// The error for an HTTP status that is not a success: the status line and
/// the body.
pub fn http_status_error(status: &str, body: &str) -> (e: ProviderError)
    ensures
        e matches ProviderError::ApiError(m) && m@ == "HTTP "@ + status@ + ": "@ + body@,
{
    let mut out: Vec<char> = Vec::new();
    append_str(&mut out, "HTTP ");
    append_str(&mut out, status);
    append_str(&mut out, ": ");
    append_str(&mut out, body);
    ProviderError::ApiError(string_from_chars(&out))
}

/// An API base without trailing slashes.
pub open spec fn without_trailing_slashes(s: Seq<char>) -> Seq<char>
    decreases s.len(),
{
    if s.len() > 0 && s.last() == '/' {
        without_trailing_slashes(s.drop_last())
    } else {
        s
    }
}

/// Removes trailing slashes (`trim_end_matches('/')`).
pub fn normalize_api_base(api_base: &str) -> (r: String)
    ensures
        r@ == without_trailing_slashes(api_base@),
{
    let cs = crate::text::str_chars(api_base);
    let mut n = cs.len();
    assert(cs@.take(n as int) =~= api_base@);
    while n > 0 && cs[n - 1] == '/'
        invariant
            n <= cs@.len(),
            without_trailing_slashes(cs@.take(n as int)) == without_trailing_slashes(api_base@),
            cs@ == api_base@,
        decreases n,
    {
        assert(cs@.take(n as int).drop_last() =~= cs@.take(n - 1));
        n = n - 1;
    }
    let mut out: Vec<char> = Vec::new();
    let mut i: usize = 0;
    while i < n
        invariant
            i <= n <= cs@.len(),
            out@ == cs@.take(i as int),
        decreases n - i,
    {
        out.push(cs[i]);
        i = i + 1;
        assert(out@ =~= cs@.take(i as int));
    }
    assert(without_trailing_slashes(cs@.take(n as int)) == cs@.take(n as int));
    string_from_chars(&out)
}

} // verus!
