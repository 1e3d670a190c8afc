//! Domain model of threads, turns, messages and tools. JSON values (tool
//! arguments and schemas) are held as JSON text; instants as milliseconds
//! since the Unix epoch.
use vstd::prelude::*;

verus! {

/// Lifecycle of a thread.
#[derive(Debug, Clone, Copy, PartialEq, Eq, Structural)]
pub enum ThreadStatus {
    Active,
    Archived,
    Deleted,
}

/// What a thread is used for.
#[derive(Debug, Clone, Copy, PartialEq, Eq, Structural)]
pub enum ThreadMode {
    Chat,
    Write,
    Review,
}

/// Progress of a thread goal.
#[derive(Debug, Clone, Copy, PartialEq, Eq, Structural)]
pub enum GoalStatus {
    Active,
    Paused,
    Blocked,
    Complete,
}

/// A goal pursued in a thread.
#[derive(Debug, Clone)]
pub struct ThreadGoal {
    pub description: String,
    pub status: GoalStatus,
    pub token_budget: Option<u64>,
    pub elapsed_seconds: u64,
}

/// A conversation thread.
#[derive(Debug, Clone)]
pub struct Thread {
    pub id: String,
    pub title: String,
    pub workspace_path: Option<String>,
    pub status: ThreadStatus,
    pub mode: ThreadMode,
    pub goal: Option<ThreadGoal>,
    pub created_at: i64,
    pub updated_at: i64,
    /// Pinned threads are listed first.
    pub pinned: bool,
}

/// A to-do item of a thread.
#[derive(Debug, Clone)]
pub struct ThreadTodo {
    pub id: String,
    pub thread_id: String,
    pub text: String,
    pub completed: bool,
    pub plan_linked: bool,
    pub created_at: i64,
}

/// Lifecycle of a turn.
#[derive(Debug, Clone, Copy, PartialEq, Eq, Structural)]
pub enum TurnStatus {
    Running,
    Completed,
    Interrupted,
    Error,
}

/// Decision on a tool call that needs approval.
#[derive(Debug, Clone, Copy, PartialEq, Eq, Structural)]
pub enum ApprovalStatus {
    Pending,
    Approved,
    Rejected,
}

/// One item of a turn.
#[derive(Debug, Clone)]
pub enum TurnItem {
    UserMessage { text: String, attachments: Vec<String> },
    AssistantText { text: String },
    AssistantReasoning { content: String },
    ToolCall { id: String, name: String, args: String },
    ToolResult { call_id: String, result: String, error: Option<String> },
    Compaction { summary: String, removed_count: usize, digest: String },
    Approval { id: String, prompt: String, tool_name: String, args: String, status: ApprovalStatus },
    Error { code: String, message: String },
}

/// Token counts reported by a model.
#[derive(Debug, Clone, Copy, PartialEq, Eq, Structural)]
pub struct TokenUsage {
    pub prompt_tokens: u64,
    pub completion_tokens: u64,
    pub cache_read_tokens: u64,
    pub cache_creation_tokens: u64,
    pub total_tokens: u64,
}

/// One request/response exchange of a thread.
#[derive(Debug, Clone)]
pub struct Turn {
    pub id: String,
    pub thread_id: String,
    pub items: Vec<TurnItem>,
    pub status: TurnStatus,
    pub model: String,
    pub usage: TokenUsage,
    pub started_at: i64,
    pub completed_at: Option<i64>,
}

/// Author of a model message.
#[derive(Debug, Clone, Copy, PartialEq, Eq, Structural)]
pub enum MessageRole {
    System,
    User,
    Assistant,
}

/// One part of a model message; `input` is JSON text.
#[derive(Debug, Clone)]
pub enum ContentPart {
    Text { text: String },
    Image { url: String, detail: Option<String> },
    ToolUse { id: String, name: String, input: String },
    ToolResult { tool_use_id: String, content: String, is_error: bool },
}

/// A model message.
#[derive(Debug, Clone)]
pub struct Message {
    pub role: MessageRole,
    pub content: Vec<ContentPart>,
}

/// A tool offered to a model; `parameters` is a JSON Schema as JSON text.
#[derive(Debug, Clone)]
pub struct ToolDefinition {
    pub name: String,
    pub description: String,
    pub parameters: String,
}

/// A tool call requested by a model; `arguments` is JSON text.
#[derive(Debug, Clone)]
pub struct ToolCall {
    pub id: String,
    pub name: String,
    pub arguments: String,
}

/// Output of a tool run.
#[derive(Debug, Clone)]
pub struct ToolResult {
    pub call_id: String,
    pub output: String,
    pub error: Option<String>,
    pub execution_time_ms: u64,
}

impl ToolResult {
    /// A successful run.
    pub fn success(call_id: String, output: String, execution_time_ms: u64) -> (r: ToolResult)
        ensures
            r.call_id == call_id,
            r.output == output,
            r.error is None,
            r.execution_time_ms == execution_time_ms,
    {
        ToolResult { call_id, output, error: None, execution_time_ms }
    }

    /// A failed run: no output, the error.
    pub fn error(call_id: String, error: String, execution_time_ms: u64) -> (r: ToolResult)
        ensures
            r.call_id == call_id,
            r.output@ == Seq::<char>::empty(),
            r.error == Some(error),
            r.execution_time_ms == execution_time_ms,
    {
        ToolResult { call_id, output: String::new(), error: Some(error), execution_time_ms }
    }
}

/// The message text of a single-text message.
pub open spec fn single_text(m: Message, role: MessageRole, t: String) -> bool {
    &&& m.role == role
    &&& m.content@.len() == 1
    &&& m.content@[0] matches ContentPart::Text { text } && text == t
}

impl Message {
    /// A system message with one text part.
    pub fn system(text: String) -> (m: Message)
        ensures
            single_text(m, MessageRole::System, text),
    {
        let mut content: Vec<ContentPart> = Vec::new();
        content.push(ContentPart::Text { text });
        Message { role: MessageRole::System, content }
    }

    /// A user message with one text part.
    pub fn user(text: String) -> (m: Message)
        ensures
            single_text(m, MessageRole::User, text),
    {
        let mut content: Vec<ContentPart> = Vec::new();
        content.push(ContentPart::Text { text });
        Message { role: MessageRole::User, content }
    }

    /// An assistant message with one text part.
    pub fn assistant(text: String) -> (m: Message)
        ensures
            single_text(m, MessageRole::Assistant, text),
    {
        let mut content: Vec<ContentPart> = Vec::new();
        content.push(ContentPart::Text { text });
        Message { role: MessageRole::Assistant, content }
    }
}

/// All counts zero.
pub open spec fn zero_usage() -> TokenUsage {
    TokenUsage {
        prompt_tokens: 0,
        completion_tokens: 0,
        cache_read_tokens: 0,
        cache_creation_tokens: 0,
        total_tokens: 0,
    }
}

/// Field-wise sum of two usages.
pub open spec fn usage_sum(a: TokenUsage, b: TokenUsage) -> TokenUsage {
    TokenUsage {
        prompt_tokens: (a.prompt_tokens + b.prompt_tokens) as u64,
        completion_tokens: (a.completion_tokens + b.completion_tokens) as u64,
        cache_read_tokens: (a.cache_read_tokens + b.cache_read_tokens) as u64,
        cache_creation_tokens: (a.cache_creation_tokens + b.cache_creation_tokens) as u64,
        total_tokens: (a.total_tokens + b.total_tokens) as u64,
    }
}

/// The sum of two usages fits in the counters.
pub open spec fn usage_fits(a: TokenUsage, b: TokenUsage) -> bool {
    &&& a.prompt_tokens + b.prompt_tokens <= u64::MAX
    &&& a.completion_tokens + b.completion_tokens <= u64::MAX
    &&& a.cache_read_tokens + b.cache_read_tokens <= u64::MAX
    &&& a.cache_creation_tokens + b.cache_creation_tokens <= u64::MAX
    &&& a.total_tokens + b.total_tokens <= u64::MAX
}

impl Default for TokenUsage {
    fn default() -> (r: TokenUsage)
        ensures
            r == zero_usage(),
    {
        TokenUsage {
            prompt_tokens: 0,
            completion_tokens: 0,
            cache_read_tokens: 0,
            cache_creation_tokens: 0,
            total_tokens: 0,
        }
    }
}

impl TokenUsage {
    /// Adds another report to this one, field by field.
    pub fn add(&mut self, other: &TokenUsage)
        requires
            usage_fits(*old(self), *other),
        ensures
            *final(self) == usage_sum(*old(self), *other),
    {
        self.prompt_tokens = self.prompt_tokens + other.prompt_tokens;
        self.completion_tokens = self.completion_tokens + other.completion_tokens;
        self.cache_read_tokens = self.cache_read_tokens + other.cache_read_tokens;
        self.cache_creation_tokens = self.cache_creation_tokens + other.cache_creation_tokens;
        self.total_tokens = self.total_tokens + other.total_tokens;
    }

    /// Whether `other` can be added without overflow.
    pub fn can_add(&self, other: &TokenUsage) -> (b: bool)
        ensures
            b == usage_fits(*self, *other),
    {
        self.prompt_tokens <= u64::MAX - other.prompt_tokens && self.completion_tokens <= u64::MAX
            - other.completion_tokens && self.cache_read_tokens <= u64::MAX
            - other.cache_read_tokens && self.cache_creation_tokens <= u64::MAX
            - other.cache_creation_tokens && self.total_tokens <= u64::MAX - other.total_tokens
    }
}

/// Adding usages is commutative.
pub proof fn law_usage_sum_commutes(a: TokenUsage, b: TokenUsage)
    requires
        usage_fits(a, b),
    ensures
        usage_sum(a, b) == usage_sum(b, a),
{
}

/// Adding usages does not depend on grouping: a turn's total is the same
/// whichever reports are added first.
pub proof fn law_usage_sum_associative(a: TokenUsage, b: TokenUsage, c: TokenUsage)
    requires
        usage_fits(a, b),
        usage_fits(usage_sum(a, b), c),
    ensures
        usage_fits(b, c),
        usage_fits(a, usage_sum(b, c)),
        usage_sum(usage_sum(a, b), c) == usage_sum(a, usage_sum(b, c)),
{
}

/// Adding the zero usage changes nothing.
pub proof fn law_usage_zero_identity(a: TokenUsage)
    ensures
        usage_sum(a, zero_usage()) == a,
{
}

/// A lower-case hexadecimal digit.
pub open spec fn is_hex_lower(c: char) -> bool {
    (48 <= c as u32 <= 57) || (97 <= c as u32 <= 102)
}

/// The text of a random (version 4, RFC variant) UUID in hyphenated form:
/// 36 characters, `-` at positions 8, 13, 18 and 23, lower-case hexadecimal
/// digits elsewhere, the version digit `4` at position 14 and one of `8`,
/// `9`, `a`, `b` at position 19.
pub open spec fn uuid_v4_text(s: Seq<char>) -> bool {
    &&& s.len() == 36
    &&& forall|i: int| 0 <= i < 36 ==> (if i == 8 || i == 13 || i == 18 || i == 23 {
        #[trigger] s[i] == '-'
    } else {
        is_hex_lower(s[i])
    })
    &&& s[14] == '4'
    &&& (s[19] == '8' || s[19] == '9' || s[19] == 'a' || s[19] == 'b')
}

/// A fresh identifier: `uuid::Uuid::new_v4`, written by `to_string` (its
/// `Display`, the lower-case hyphenated form). The value rests on chance;
/// the contract states the shape that every outcome has: `new_v4` sets the
/// version bits to 4 and the variant bits to `10`.
#[verifier::external_body]
fn new_uuid() -> (r: String)
    ensures
        uuid_v4_text(r@),
{
    uuid::Uuid::new_v4().to_string()
}

/// The current time in milliseconds since the Unix epoch
/// (`chrono::Utc::now().timestamp_millis()`). It reads the clock, so the
/// contract states nothing of the value.
#[verifier::external_body]
fn now_millis() -> (r: i64) {
    chrono::Utc::now().timestamp_millis()
}

impl Turn {
    /// A running turn with a fresh id, no items, zero usage, started now.
    pub fn new(thread_id: String, model: String) -> (t: Turn)
        ensures
            uuid_v4_text(t.id@),
            t.thread_id == thread_id,
            t.model == model,
            t.items@.len() == 0,
            t.status == TurnStatus::Running,
            t.usage == zero_usage(),
            t.completed_at is None,
    {
        Turn {
            id: new_uuid(),
            thread_id,
            items: Vec::new(),
            status: TurnStatus::Running,
            model,
            usage: TokenUsage::default(),
            started_at: now_millis(),
            completed_at: None,
        }
    }

    /// Appends an item.
    pub fn add_item(&mut self, item: TurnItem)
        ensures
            final(self).items@ == old(self).items@.push(item),
            final(self).id == old(self).id,
            final(self).thread_id == old(self).thread_id,
            final(self).status == old(self).status,
            final(self).model == old(self).model,
            final(self).usage == old(self).usage,
            final(self).started_at == old(self).started_at,
            final(self).completed_at == old(self).completed_at,
    {
        self.items.push(item);
    }

    /// Completes the turn with its final usage, now.
    pub fn complete(&mut self, usage: TokenUsage)
        ensures
            final(self).status == TurnStatus::Completed,
            final(self).usage == usage,
            final(self).completed_at is Some,
            final(self).items == old(self).items,
            final(self).id == old(self).id,
            final(self).thread_id == old(self).thread_id,
            final(self).model == old(self).model,
            final(self).started_at == old(self).started_at,
    {
        self.status = TurnStatus::Completed;
        self.usage = usage;
        self.completed_at = Some(now_millis());
    }
}

impl Thread {
    /// An active, unpinned thread without goal, created now.
    pub fn new(title: String, workspace_path: Option<String>, mode: ThreadMode) -> (t: Thread)
        ensures
            uuid_v4_text(t.id@),
            t.title == title,
            t.workspace_path == workspace_path,
            t.status == ThreadStatus::Active,
            t.mode == mode,
            t.goal is None,
            t.created_at == t.updated_at,
            !t.pinned,
    {
        let now = now_millis();
        Thread {
            id: new_uuid(),
            title,
            workspace_path,
            status: ThreadStatus::Active,
            mode,
            goal: None,
            created_at: now,
            updated_at: now,
            pinned: false,
        }
    }
}

/// Stored name of a thread status.
pub open spec fn thread_status_name(s: ThreadStatus) -> Seq<char> {
    match s {
        ThreadStatus::Active => "active"@,
        ThreadStatus::Archived => "archived"@,
        ThreadStatus::Deleted => "deleted"@,
    }
}

/// Status read back from its stored name (unknown names read as deleted).
pub open spec fn thread_status_parse(s: Seq<char>) -> ThreadStatus {
    if s == "active"@ {
        ThreadStatus::Active
    } else if s == "archived"@ {
        ThreadStatus::Archived
    } else {
        ThreadStatus::Deleted
    }
}

/// Stored name of a thread mode.
pub open spec fn thread_mode_name(m: ThreadMode) -> Seq<char> {
    match m {
        ThreadMode::Chat => "chat"@,
        ThreadMode::Write => "write"@,
        ThreadMode::Review => "review"@,
    }
}

/// Mode read back from its stored name (unknown names read as chat).
pub open spec fn thread_mode_parse(s: Seq<char>) -> ThreadMode {
    if s == "write"@ {
        ThreadMode::Write
    } else if s == "review"@ {
        ThreadMode::Review
    } else {
        ThreadMode::Chat
    }
}

/// Stored name of a turn status.
pub open spec fn turn_status_name(s: TurnStatus) -> Seq<char> {
    match s {
        TurnStatus::Running => "running"@,
        TurnStatus::Completed => "completed"@,
        TurnStatus::Interrupted => "interrupted"@,
        TurnStatus::Error => "error"@,
    }
}

fn str_is(a: &str, b: &str) -> (r: bool)
    ensures
        r == (a@ == b@),
{
    a.to_owned() == b.to_owned()
}

impl ThreadStatus {
    /// The stored name (lower-case variant name).
    pub fn as_name(&self) -> (r: String)
        ensures
            r@ == thread_status_name(*self),
    {
        match self {
            ThreadStatus::Active => "active".to_owned(),
            ThreadStatus::Archived => "archived".to_owned(),
            ThreadStatus::Deleted => "deleted".to_owned(),
        }
    }

    /// Reads a stored name; anything unknown is `Deleted`.
    pub fn from_name(s: &str) -> (r: ThreadStatus)
        ensures
            r == thread_status_parse(s@),
    {
        if str_is(s, "active") {
            ThreadStatus::Active
        } else if str_is(s, "archived") {
            ThreadStatus::Archived
        } else {
            ThreadStatus::Deleted
        }
    }
}

impl ThreadMode {
    /// The stored name (lower-case variant name).
    pub fn as_name(&self) -> (r: String)
        ensures
            r@ == thread_mode_name(*self),
    {
        match self {
            ThreadMode::Chat => "chat".to_owned(),
            ThreadMode::Write => "write".to_owned(),
            ThreadMode::Review => "review".to_owned(),
        }
    }

    /// Reads a stored name; anything unknown is `Chat`.
    pub fn from_name(s: &str) -> (r: ThreadMode)
        ensures
            r == thread_mode_parse(s@),
    {
        if str_is(s, "write") {
            ThreadMode::Write
        } else if str_is(s, "review") {
            ThreadMode::Review
        } else {
            ThreadMode::Chat
        }
    }
}

impl TurnStatus {
    /// The stored name (lower-case variant name).
    pub fn as_name(&self) -> (r: String)
        ensures
            r@ == turn_status_name(*self),
    {
        match self {
            TurnStatus::Running => "running".to_owned(),
            TurnStatus::Completed => "completed".to_owned(),
            TurnStatus::Interrupted => "interrupted".to_owned(),
            TurnStatus::Error => "error".to_owned(),
        }
    }
}

/// A thread status survives being stored and read back.
pub proof fn law_thread_status_roundtrip(s: ThreadStatus)
    ensures
        thread_status_parse(thread_status_name(s)) == s,
{
    reveal_strlit("active");
    reveal_strlit("archived");
    reveal_strlit("deleted");
    assert("archived"@[1] != "active"@[1]);
    assert("deleted"@[0] != "active"@[0]);
    assert("deleted"@[0] != "archived"@[0]);
}

/// A thread mode survives being stored and read back.
pub proof fn law_thread_mode_roundtrip(m: ThreadMode)
    ensures
        thread_mode_parse(thread_mode_name(m)) == m,
{
    reveal_strlit("chat");
    reveal_strlit("write");
    reveal_strlit("review");
    assert("chat"@[0] != "write"@[0]);
    assert("chat"@[0] != "review"@[0]);
    assert("review"@[0] != "write"@[0]);
}

} // verus!
