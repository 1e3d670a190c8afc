//! Sessions as the front end sees them: metadata, messages, and the rules
//! for titles and states. The caller reads and writes the store.
use vstd::prelude::*;
use crate::commands::chat::{title_from, untitled};
use crate::domain::{Thread, ThreadStatus, Turn, TurnItem, thread_status_name};
use crate::text::{append_str, str_chars, string_from_chars, trim_chars, trim_seq};

verus! {

/// Summary of a session for the session list.
#[derive(Debug, Clone)]
pub struct SessionMeta {
    pub id: String,
    pub title: String,
    /// Seconds since the Unix epoch.
    pub created_at: u64,
    pub updated_at: u64,
    pub message_count: usize,
    /// `active`, `archived` or `deleted`.
    pub status: String,
    pub pinned: bool,
}

/// A message of a session as the front end shows it.
#[derive(Debug, Clone)]
pub struct SessionMessage {
    pub role: String,
    pub content: String,
    pub timestamp: u64,
    pub thinking: Option<String>,
    pub tool_name: Option<String>,
}

/// A session with its messages.
#[derive(Debug, Clone)]
pub struct Session {
    pub meta: SessionMeta,
    pub messages: Vec<SessionMessage>,
    pub summary: Option<String>,
}

/// Whole seconds of an instant given in milliseconds (rounded down).
pub open spec fn seconds_of(ms: i64) -> i64 {
    (ms as int / 1000) as i64
}

fn seconds(ms: i64) -> (s: i64)
    ensures
        s == seconds_of(ms),
{
    let q = ms / 1000;
    let r = ms % 1000;
    if r < 0 {
        q - 1
    } else {
        q
    }
}

/// The list entry of a thread with the given number of messages; instants
/// in seconds (as unsigned, the way they are sent).
pub fn meta_from_thread(thread: &Thread, message_count: usize) -> (m: SessionMeta)
    ensures
        m.id == thread.id,
        m.title == thread.title,
        m.created_at == seconds_of(thread.created_at) as u64,
        m.updated_at == seconds_of(thread.updated_at) as u64,
        m.message_count == message_count,
        m.status@ == thread_status_name(thread.status),
        m.pinned == thread.pinned,
{
    let c = seconds(thread.created_at);
    let u = seconds(thread.updated_at);
    SessionMeta {
        id: thread.id.clone(),
        title: thread.title.clone(),
        created_at: c as u64,
        updated_at: u as u64,
        message_count,
        status: thread.status.as_name(),
        pinned: thread.pinned,
    }
}

/// Role, content, thinking and tool name of the message shown for an item.
pub open spec fn item_message(item: TurnItem) -> Option<(Seq<char>, Seq<char>, Option<Seq<char>>, Option<Seq<char>>)> {
    match item {
        TurnItem::UserMessage { text, .. } => Some(("user"@, text@, None, None)),
        TurnItem::AssistantText { text } => Some(("assistant"@, text@, None, None)),
        TurnItem::AssistantReasoning { content } => Some(("assistant"@, Seq::empty(), Some(content@), None)),
        TurnItem::ToolCall { name, args, .. } => Some(("tool_call"@, args@, None, Some(name@))),
        TurnItem::ToolResult { result, error, .. } => Some((
            "tool_result"@,
            match error {
                Some(e) => e@,
                None => result@,
            },
            None,
            None,
        )),
        _ => None,
    }
}

pub open spec fn message_fields(m: SessionMessage) -> (Seq<char>, Seq<char>, Option<Seq<char>>, Option<Seq<char>>) {
    (m.role@, m.content@, crate::providers::types::opt_view(m.thinking), crate::providers::types::opt_view(m.tool_name))
}

/// The message shown for a turn item, stamped with its turn's start.
pub fn turn_item_to_message(item: &TurnItem, ts: u64) -> (r: Option<SessionMessage>)
    ensures
        match r {
            Some(m) => item_message(*item) == Some(message_fields(m)) && m.timestamp == ts,
            None => item_message(*item) is None,
        },
{
    match item {
        TurnItem::UserMessage { text, .. } => Some(SessionMessage { role: "user".to_owned(), content: text.clone(), timestamp: ts, thinking: None, tool_name: None }),
        TurnItem::AssistantText { text } => Some(SessionMessage { role: "assistant".to_owned(), content: text.clone(), timestamp: ts, thinking: None, tool_name: None }),
        TurnItem::AssistantReasoning { content } => Some(SessionMessage { role: "assistant".to_owned(), content: String::new(), timestamp: ts, thinking: Some(content.clone()), tool_name: None }),
        TurnItem::ToolCall { name, args, .. } => Some(SessionMessage { role: "tool_call".to_owned(), content: args.clone(), timestamp: ts, thinking: None, tool_name: Some(name.clone()) }),
        TurnItem::ToolResult { result, error, .. } => {
            let content = match error {
                Some(e) => e.clone(),
                None => result.clone(),
            };
            Some(SessionMessage { role: "tool_result".to_owned(), content, timestamp: ts, thinking: None, tool_name: None })
        },
        _ => None,
    }
}

/// Number of conversation messages (user messages and assistant texts) in
/// some turns.
pub open spec fn dialogue_count(turns: Seq<Turn>) -> nat
    decreases turns.len(),
{
    if turns.len() == 0 {
        0
    } else {
        dialogue_count(turns.drop_last()) + crate::commands::chat::items_dialogue(turns.last().items@).len()
    }
}

/// Counts the conversation messages of some turns.
pub fn count_dialogue(turns: &Vec<Turn>) -> (n: usize)
    requires
        dialogue_count(turns@) <= usize::MAX,
    ensures
        n == dialogue_count(turns@),
{
    let mut n: usize = 0;
    let mut i: usize = 0;
    while i < turns.len()
        invariant
            i <= turns@.len(),
            n == dialogue_count(turns@.take(i as int)),
            dialogue_count(turns@) <= usize::MAX,
        decreases turns.len() - i,
    {
        proof {
            assert(turns@.take(i + 1).drop_last() =~= turns@.take(i as int));
            assert(turns@.take(i + 1).last() == turns@[i as int]);
            lemma_dialogue_count_mono(turns@, i + 1);
        }
        let items = &turns[i].items;
        let ghost base = n;
        let mut j: usize = 0;
        while j < items.len()
            invariant
                j <= items@.len(),
                n == base + crate::commands::chat::items_dialogue(items@.take(j as int)).len(),
                base + crate::commands::chat::items_dialogue(items@).len() <= usize::MAX,
            decreases items.len() - j,
        {
            proof {
                assert(items@.take(j + 1).drop_last() =~= items@.take(j as int));
                assert(items@.take(j + 1).last() == items@[j as int]);
                lemma_items_dialogue_mono(items@, j + 1);
            }
            match &items[j] {
                TurnItem::UserMessage { .. } => n = n + 1,
                TurnItem::AssistantText { .. } => n = n + 1,
                _ => {},
            }
            j = j + 1;
        }
        assert(items@.take(j as int) =~= items@);
        i = i + 1;
    }
    assert(turns@.take(i as int) =~= turns@);
    n
}

proof fn lemma_items_dialogue_mono(items: Seq<TurnItem>, k: int)
    requires
        0 <= k <= items.len(),
    ensures
        crate::commands::chat::items_dialogue(items.take(k)).len() <= crate::commands::chat::items_dialogue(items).len(),
    decreases items.len() - k,
{
    if k < items.len() {
        lemma_items_dialogue_mono(items, k + 1);
        assert(items.take(k + 1).drop_last() =~= items.take(k));
    } else {
        assert(items.take(k) =~= items);
    }
}

proof fn lemma_dialogue_count_mono(turns: Seq<Turn>, k: int)
    requires
        0 <= k <= turns.len(),
    ensures
        dialogue_count(turns.take(k)) <= dialogue_count(turns),
    decreases turns.len() - k,
{
    if k < turns.len() {
        lemma_dialogue_count_mono(turns, k + 1);
        assert(turns.take(k + 1).drop_last() =~= turns.take(k));
    } else {
        assert(turns.take(k) =~= turns);
    }
}

/// Items stored for saved messages: user messages and assistant texts in
/// order (other roles are dropped), then the summary when it is not empty.
pub open spec fn saved_items(msgs: Seq<SessionMessage>) -> Seq<(bool, Seq<char>)>
    decreases msgs.len(),
{
    if msgs.len() == 0 {
        Seq::empty()
    } else {
        let rest = saved_items(msgs.drop_last());
        let m = msgs.last();
        if m.role@ == "user"@ {
            rest.push((true, m.content@))
        } else if m.role@ == "assistant"@ {
            rest.push((false, m.content@))
        } else {
            rest
        }
    }
}

/// (is user, text) of a user or assistant item.
pub open spec fn item_kind(item: TurnItem) -> Option<(bool, Seq<char>)> {
    match item {
        TurnItem::UserMessage { text, .. } => Some((true, text@)),
        TurnItem::AssistantText { text } => Some((false, text@)),
        _ => None,
    }
}

/// The items that store a list of messages and an optional summary.
pub fn items_from_messages(messages: &Vec<SessionMessage>, summary: Option<String>) -> (r: Vec<TurnItem>)
    ensures
        ({
            let want = saved_items(messages@);
            let with_summary = summary matches Some(s) && s@.len() > 0;
            &&& r@.len() == want.len() + if with_summary { 1int } else { 0int }
            &&& forall|k: int| 0 <= k < want.len() ==> item_kind(#[trigger] r@[k]) == Some(want[k])
            &&& with_summary ==> (r@.last() matches TurnItem::Compaction { summary: s2, removed_count, digest }
                && summary == Some(s2) && removed_count == 0 && digest@.len() == 0)
        }),
{
    proof {
        reveal_strlit("user");
        reveal_strlit("assistant");
    }
    let mut r: Vec<TurnItem> = Vec::new();
    let mut i: usize = 0;
    while i < messages.len()
        invariant
            i <= messages@.len(),
            r@.len() == saved_items(messages@.take(i as int)).len(),
            forall|k: int| 0 <= k < r@.len() ==> item_kind(#[trigger] r@[k]) == Some(saved_items(messages@.take(i as int))[k]),
        decreases messages.len() - i,
    {
        proof {
            assert(messages@.take(i + 1).drop_last() =~= messages@.take(i as int));
            assert(messages@.take(i + 1).last() == messages@[i as int]);
        }
        let m = &messages[i];
        if crate::agent::str_equal(m.role.as_str(), "user") {
            r.push(TurnItem::UserMessage { text: m.content.clone(), attachments: Vec::new() });
        } else if crate::agent::str_equal(m.role.as_str(), "assistant") {
            r.push(TurnItem::AssistantText { text: m.content.clone() });
        }
        i = i + 1;
    }
    assert(messages@.take(i as int) =~= messages@);
    match summary {
        Some(s) => {
            if s.as_str().unicode_len() > 0 {
                r.push(TurnItem::Compaction { summary: s, removed_count: 0, digest: String::new() });
            }
        },
        None => {},
    }
    r
}

/// The title to store after saving messages: a default title is replaced by
/// one made from the first user message, if there is one.
pub fn title_after_save(current: &str, messages: &Vec<SessionMessage>) -> (r: Option<String>)
    ensures
        !untitled(current@) || messages@.len() == 0 ==> r is None,
        untitled(current@) && messages@.len() > 0 ==> match r {
            Some(t) => exists|k: int| 0 <= k < messages@.len() && messages@[k].role@ == "user"@
                && (forall|j: int| 0 <= j < k ==> messages@[j].role@ != "user"@) && t@ == title_from(messages@[k].content@),
            None => forall|k: int| 0 <= k < messages@.len() ==> messages@[k].role@ != "user"@,
        },
{
    if !crate::commands::chat::is_untitled(current) || messages.len() == 0 {
        return None;
    }
    let mut i: usize = 0;
    while i < messages.len()
        invariant
            i <= messages@.len(),
            untitled(current@),
            messages@.len() > 0,
            forall|j: int| 0 <= j < i ==> messages@[j].role@ != "user"@,
        decreases messages.len() - i,
    {
        if crate::agent::str_equal(messages[i].role.as_str(), "user") {
            return Some(crate::commands::chat::derive_title(messages[i].content.as_str()));
        }
        i = i + 1;
    }
    None
}

/// The state a session can be set to: `active` or `archived`.
pub fn parse_session_status(status: &str) -> (r: Result<ThreadStatus, String>)
    ensures
        status@ == "active"@ ==> r == Ok::<ThreadStatus, String>(ThreadStatus::Active),
        status@ == "archived"@ ==> r == Ok::<ThreadStatus, String>(ThreadStatus::Archived),
        status@ != "active"@ && status@ != "archived"@ ==> (r matches Err(e) && e@ == "非法的会话状态: "@ + status@),
{
    proof {
        reveal_strlit("active");
        reveal_strlit("archived");
        assert("archived"@[1] != "active"@[1]);
    }
    if crate::agent::str_equal(status, "active") {
        Ok(ThreadStatus::Active)
    } else if crate::agent::str_equal(status, "archived") {
        Ok(ThreadStatus::Archived)
    } else {
        let mut out: Vec<char> = Vec::new();
        append_str(&mut out, "非法的会话状态: ");
        append_str(&mut out, status);
        Err(string_from_chars(&out))
    }
}

/// A new title, trimmed; an empty one is refused.
pub fn checked_title(title: &str) -> (r: Result<String, String>)
    ensures
        trim_seq(title@).len() == 0 ==> (r matches Err(e) && e@ == "标题不能为空"@),
        trim_seq(title@).len() > 0 ==> (r matches Ok(t) && t@ == trim_seq(title@)),
{
    let cs = str_chars(title);
    let t = trim_chars(&cs);
    if t.len() == 0 {
        return Err("标题不能为空".to_owned());
    }
    Ok(string_from_chars(&t))
}

} // verus!
