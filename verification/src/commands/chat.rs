//! Plain chat against an OpenAI-compatible endpoint: request checks, the
//! request messages, the reading of the event stream line by line, and what
//! is stored afterwards. The caller does the HTTP and the storage.
use vstd::prelude::*;
use crate::domain::{Turn, TurnItem};
use crate::json::{array_len_at, json_array_len_at, json_parses, json_str_at, parses, str_at};
use crate::providers::types::opt_view;
use crate::paths::{lemma_split_on_concat, lemma_split_on_nonempty, split_on};
use crate::text::{
    append_str, push_str, starts_with_seq, str_chars, str_starts_with, string_from_chars,
    trim_chars, trim_seq, views,
};

verus! {

/// Application error, shown to the user as its text.
#[derive(Debug, Clone)]
pub enum AppError {
    /// Invalid input (empty value, bad format, out of range).
    InvalidInput(String),
    NotFound(String),
    Forbidden(String),
    Io(String),
    Network(String),
    Api(String),
    Storage(String),
    Parse(String),
}

/// Text of an application error.
pub open spec fn app_error_text(e: AppError) -> Seq<char> {
    match e {
        AppError::InvalidInput(s) => "输入非法: "@ + s@,
        AppError::NotFound(s) => s@,
        AppError::Forbidden(s) => s@,
        AppError::Io(s) => s@,
        AppError::Network(s) => s@,
        AppError::Api(s) => s@,
        AppError::Storage(s) => s@,
        AppError::Parse(s) => s@,
    }
}

impl AppError {
    /// The message shown for the error.
    pub fn to_text(&self) -> (r: String)
        ensures
            r@ == app_error_text(*self),
    {
        match self {
            AppError::InvalidInput(s) => {
                let mut out: Vec<char> = Vec::new();
                append_str(&mut out, "输入非法: ");
                append_str(&mut out, s.as_str());
                string_from_chars(&out)
            },
            AppError::NotFound(s) => s.clone(),
            AppError::Forbidden(s) => s.clone(),
            AppError::Io(s) => s.clone(),
            AppError::Network(s) => s.clone(),
            AppError::Api(s) => s.clone(),
            AppError::Storage(s) => s.clone(),
            AppError::Parse(s) => s.clone(),
        }
    }
}

/// An API base URL is accepted when, trimmed, it is not empty and starts
/// with `http://` or `https://`.
pub open spec fn api_base_error(api_base: Seq<char>) -> Option<Seq<char>> {
    let t = trim_seq(api_base);
    if t.len() == 0 {
        Some("API 地址不能为空"@)
    } else if !(starts_with_seq(t, "http://"@) || starts_with_seq(t, "https://"@)) {
        Some("API 地址必须以 http:// 或 https:// 开头"@)
    } else {
        None
    }
}

/// Checks an API base URL.
pub fn validate_api_base(api_base: &str) -> (r: Result<(), AppError>)
    ensures
        match api_base_error(api_base@) {
            Some(m) => r matches Err(AppError::InvalidInput(s)) && s@ == m,
            None => r is Ok,
        },
{
    let cs = str_chars(api_base);
    let t = trim_chars(&cs);
    if t.len() == 0 {
        return Err(AppError::InvalidInput("API 地址不能为空".to_owned()));
    }
    let ts = string_from_chars(&t);
    if !(str_starts_with(ts.as_str(), "http://") || str_starts_with(ts.as_str(), "https://")) {
        return Err(AppError::InvalidInput("API 地址必须以 http:// 或 https:// 开头".to_owned()));
    }
    Ok(())
}

/// The first problem of a chat request, if any: an empty message, a bad API
/// address, or an empty model name (in that order).
pub open spec fn chat_request_error(user_text: Seq<char>, api_base: Seq<char>, model: Seq<char>) -> Option<Seq<char>> {
    if trim_seq(user_text).len() == 0 {
        Some("消息内容不能为空"@)
    } else if api_base_error(api_base) is Some {
        api_base_error(api_base)
    } else if trim_seq(model).len() == 0 {
        Some("模型名不能为空"@)
    } else {
        None
    }
}

/// Checks a chat request before anything is sent.
pub fn validate_chat_request(user_text: &str, api_base: &str, model: &str) -> (r: Result<(), AppError>)
    ensures
        match chat_request_error(user_text@, api_base@, model@) {
            Some(m) => r matches Err(AppError::InvalidInput(s)) && s@ == m,
            None => r is Ok,
        },
{
    let u = str_chars(user_text);
    if trim_chars(&u).len() == 0 {
        return Err(AppError::InvalidInput("消息内容不能为空".to_owned()));
    }
    validate_api_base(api_base)?;
    let m = str_chars(model);
    if trim_chars(&m).len() == 0 {
        return Err(AppError::InvalidInput("模型名不能为空".to_owned()));
    }
    Ok(())
}

/// Author of a chat request message.
#[derive(Debug, Clone, Copy, PartialEq, Eq, Structural)]
pub enum ChatRole {
    User,
    Assistant,
}

/// A message of the chat request.
#[derive(Debug, Clone)]
pub struct ChatMessage {
    pub role: ChatRole,
    pub content: String,
}

/// User and assistant texts of turn items, in order.
pub open spec fn items_dialogue(items: Seq<TurnItem>) -> Seq<(ChatRole, Seq<char>)>
    decreases items.len(),
{
    if items.len() == 0 {
        Seq::empty()
    } else {
        let rest = items_dialogue(items.drop_last());
        match items.last() {
            TurnItem::UserMessage { text, .. } => rest.push((ChatRole::User, text@)),
            TurnItem::AssistantText { text } => rest.push((ChatRole::Assistant, text@)),
            _ => rest,
        }
    }
}

/// Dialogue of the stored turns, in the order listed.
pub open spec fn turns_dialogue(turns: Seq<Turn>) -> Seq<(ChatRole, Seq<char>)>
    decreases turns.len(),
{
    if turns.len() == 0 {
        Seq::empty()
    } else {
        turns_dialogue(turns.drop_last()) + items_dialogue(turns.last().items@)
    }
}

pub open spec fn chat_messages_view(v: Seq<ChatMessage>) -> Seq<(ChatRole, Seq<char>)> {
    v.map_values(|m: ChatMessage| (m.role, m.content@))
}

/// The request messages: the stored dialogue, then the new user message.
pub fn chat_messages(turns: &Vec<Turn>, user_text: &str) -> (r: Vec<ChatMessage>)
    ensures
        chat_messages_view(r@) == turns_dialogue(turns@).push((ChatRole::User, user_text@)),
{
    let mut r: Vec<ChatMessage> = Vec::new();
    let mut i: usize = 0;
    while i < turns.len()
        invariant
            i <= turns@.len(),
            chat_messages_view(r@) == turns_dialogue(turns@.take(i as int)),
        decreases turns.len() - i,
    {
        proof {
            assert(turns@.take(i + 1).drop_last() =~= turns@.take(i as int));
            assert(turns@.take(i + 1).last() == turns@[i as int]);
        }
        let items = &turns[i].items;
        let ghost head = chat_messages_view(r@);
        let mut j: usize = 0;
        while j < items.len()
            invariant
                j <= items@.len(),
                chat_messages_view(r@) == head + items_dialogue(items@.take(j as int)),
            decreases items.len() - j,
        {
            proof {
                assert(items@.take(j + 1).drop_last() =~= items@.take(j as int));
                assert(items@.take(j + 1).last() == items@[j as int]);
            }
            let ghost before = chat_messages_view(r@);
            match &items[j] {
                TurnItem::UserMessage { text, .. } => {
                    r.push(ChatMessage { role: ChatRole::User, content: text.clone() });
                    assert(chat_messages_view(r@) =~= before.push((ChatRole::User, text@)));
                },
                TurnItem::AssistantText { text } => {
                    r.push(ChatMessage { role: ChatRole::Assistant, content: text.clone() });
                    assert(chat_messages_view(r@) =~= before.push((ChatRole::Assistant, text@)));
                },
                _ => {},
            }
            j = j + 1;
            assert(chat_messages_view(r@) =~= head + items_dialogue(items@.take(j as int)));
        }
        assert(items@.take(j as int) =~= items@);
        i = i + 1;
    }
    assert(turns@.take(i as int) =~= turns@);
    let ghost before = chat_messages_view(r@);
    r.push(ChatMessage { role: ChatRole::User, content: user_text.to_owned() });
    assert(chat_messages_view(r@) =~= before.push((ChatRole::User, user_text@)));
    r
}

/// Buffer of a byte stream read line by line: complete lines are handed
/// out, the unfinished last one waits for more.
pub struct LineBuffer {
    pub pending: String,
}

/// The complete lines of `text` (trimmed), and the unfinished rest.
pub open spec fn split_lines(text: Seq<char>) -> (Seq<Seq<char>>, Seq<char>) {
    let pieces = split_on(text, '\n');
    (pieces.drop_last().map_values(|p: Seq<char>| trim_seq(p)), pieces.last())
}

/// Lines do not depend on how the stream is cut: feeding `a` and then `b`
/// hands out, in order, the lines that feeding `a + b` at once hands out, and
/// leaves the same unfinished rest.
pub proof fn law_lines_independent_of_chunking(pending: Seq<char>, a: Seq<char>, b: Seq<char>)
    ensures
        split_lines(pending + a).0 + split_lines(split_lines(pending + a).1 + b).0 == split_lines(pending + a + b).0,
        split_lines(split_lines(pending + a).1 + b).1 == split_lines(pending + a + b).1,
{
    let x = pending + a;
    lemma_split_on_concat(x, b, '\n');
    lemma_split_on_nonempty(x, '\n');
    let d = split_on(x, '\n').drop_last();
    let s = split_on(split_on(x, '\n').last() + b, '\n');
    lemma_split_on_nonempty(split_on(x, '\n').last() + b, '\n');
    assert(pending + a + b =~= x + b);
    assert((d + s).drop_last() =~= d + s.drop_last());
    assert((d + s.drop_last()).map_values(|p: Seq<char>| trim_seq(p)) =~= d.map_values(|p: Seq<char>| trim_seq(p))
        + s.drop_last().map_values(|p: Seq<char>| trim_seq(p)));
}

impl LineBuffer {
    pub fn new() -> (r: LineBuffer)
        ensures
            r.pending@.len() == 0,
    {
        LineBuffer { pending: String::new() }
    }

    /// Adds received text; returns the lines it completed, trimmed.
    pub fn push(&mut self, text: &str) -> (lines: Vec<String>)
        ensures
            views(lines@) == split_lines(old(self).pending@ + text@).0,
            final(self).pending@ == split_lines(old(self).pending@ + text@).1,
    {
        let mut all = str_chars(self.pending.as_str());
        crate::text::append_str(&mut all, text);
        let mut lines: Vec<String> = Vec::new();
        let mut cur: Vec<char> = Vec::new();
        let mut i: usize = 0;
        while i < all.len()
            invariant
                i <= all@.len(),
                split_on(all@.take(i as int), '\n').len() >= 1,
                views(lines@) == split_on(all@.take(i as int), '\n').drop_last().map_values(|p: Seq<char>| trim_seq(p)),
                cur@ == split_on(all@.take(i as int), '\n').last(),
            decreases all.len() - i,
        {
            proof {
                assert(all@.take(i + 1).drop_last() =~= all@.take(i as int));
                assert(all@.take(i + 1).last() == all@[i as int]);
            }
            let ghost prev = split_on(all@.take(i as int), '\n');
            if all[i] == '\n' {
                let t = trim_chars(&cur);
                let ghost lb = views(lines@);
                lines.push(string_from_chars(&t));
                assert(views(lines@) =~= lb.push(trim_seq(prev.last())));
                assert(prev =~= prev.drop_last().push(prev.last()));
                assert(prev.map_values(|p: Seq<char>| trim_seq(p)) =~= prev.drop_last().map_values(|p: Seq<char>| trim_seq(p)).push(trim_seq(prev.last())));
                cur = Vec::new();
                assert(split_on(all@.take(i + 1), '\n') == prev.push(Seq::empty()));
                assert(split_on(all@.take(i + 1), '\n').drop_last() =~= prev);
                assert(views(lines@) =~= prev.map_values(|p: Seq<char>| trim_seq(p)));
            } else {
                cur.push(all[i]);
                let ghost next = split_on(all@.take(i + 1), '\n');
                assert(next == prev.update(prev.len() - 1, prev.last().push(all@[i as int])));
                assert(next.drop_last() =~= prev.drop_last());
            }
            i = i + 1;
        }
        assert(all@.take(i as int) =~= all@);
        self.pending = string_from_chars(&cur);
        lines
    }
}

/// What a line of the chat event stream carries.
#[derive(Debug, Clone)]
pub enum ChatLine {
    /// Empty or not a `data:` line.
    Skip,
    /// `data: [DONE]`: the stream is over.
    Done,
    /// A JSON payload (trimmed).
    Data(String),
}

/// Classifies an already trimmed line.
pub fn classify_chat_line(line: &str) -> (r: ChatLine)
    ensures
        !starts_with_seq(line@, "data:"@) ==> r is Skip,
        starts_with_seq(line@, "data:"@) && trim_seq(line@.skip(5)) == "[DONE]"@ ==> r is Done,
        starts_with_seq(line@, "data:"@) && trim_seq(line@.skip(5)) != "[DONE]"@ ==> (r matches ChatLine::Data(d) && d@ == trim_seq(line@.skip(5))),
{
    if !str_starts_with(line, "data:") {
        return ChatLine::Skip;
    }
    proof {
        reveal_strlit("data:");
    }
    let cs = str_chars(line);
    let mut rest: Vec<char> = Vec::new();
    let mut i: usize = 5;
    while i < cs.len()
        invariant
            5 <= i <= cs@.len(),
            cs@ == line@,
            rest@ == cs@.subrange(5, i as int),
        decreases cs.len() - i,
    {
        rest.push(cs[i]);
        i = i + 1;
        assert(rest@ =~= cs@.subrange(5, i as int));
    }
    assert(rest@ =~= line@.skip(5));
    let t = trim_chars(&rest);
    let d = string_from_chars(&t);
    if crate::agent::str_equal(d.as_str(), "[DONE]") {
        ChatLine::Done
    } else {
        ChatLine::Data(d)
    }
}

/// What a payload's first choice delta carries.
#[derive(Debug, Clone)]
pub struct ChatDelta {
    pub content: Option<String>,
    pub reasoning: Option<String>,
}

/// An event pushed to the front end while a chat reply streams.
#[derive(Debug, Clone)]
pub enum StreamEvent {
    /// Text increment.
    Delta { text: String },
    /// Reasoning increment.
    Reasoning { text: String },
    /// End of the stream, with the whole text.
    Done { text: String },
    /// Failure, with a readable message.
    Error { message: String },
}

/// The reply as it streams in.
pub struct ChatAccumulator {
    pub full_text: String,
    pub full_reasoning: String,
}

/// The text a delta carries (empty when it carries none).
pub open spec fn delta_text(d: ChatDelta) -> Seq<char> {
    match d.content {
        Some(c) => c@,
        None => Seq::empty(),
    }
}

/// The reasoning a delta carries (empty when it carries none).
pub open spec fn delta_reasoning(d: ChatDelta) -> Seq<char> {
    match d.reasoning {
        Some(c) => c@,
        None => Seq::empty(),
    }
}

/// The events passed on for a delta: its text, then its reasoning, each
/// when not empty.
pub open spec fn delta_events(d: ChatDelta) -> Seq<StreamEvent> {
    (match d.content {
        Some(c) => if c@.len() > 0 { seq![StreamEvent::Delta { text: c }] } else { Seq::empty() },
        None => Seq::empty(),
    }) + match d.reasoning {
        Some(c) => if c@.len() > 0 { seq![StreamEvent::Reasoning { text: c }] } else { Seq::empty() },
        None => Seq::empty(),
    }
}

/// The events passed on for a sequence of deltas.
pub open spec fn events_of(ds: Seq<ChatDelta>) -> Seq<StreamEvent>
    decreases ds.len(),
{
    if ds.len() == 0 {
        Seq::empty()
    } else {
        events_of(ds.drop_last()) + delta_events(ds.last())
    }
}

/// The text of a sequence of deltas, concatenated.
pub open spec fn text_of_deltas(ds: Seq<ChatDelta>) -> Seq<char>
    decreases ds.len(),
{
    if ds.len() == 0 {
        Seq::empty()
    } else {
        text_of_deltas(ds.drop_last()) + delta_text(ds.last())
    }
}

/// The text a list of events delivers: its text increments, concatenated.
pub open spec fn streamed_text(evs: Seq<StreamEvent>) -> Seq<char>
    decreases evs.len(),
{
    if evs.len() == 0 {
        Seq::empty()
    } else {
        streamed_text(evs.drop_last()) + match evs.last() {
            StreamEvent::Delta { text } => text@,
            _ => Seq::empty(),
        }
    }
}

proof fn lemma_streamed_text_concat(a: Seq<StreamEvent>, b: Seq<StreamEvent>)
    ensures
        streamed_text(a + b) == streamed_text(a) + streamed_text(b),
    decreases b.len(),
{
    if b.len() == 0 {
        assert(a + b =~= a);
    } else {
        lemma_streamed_text_concat(a, b.drop_last());
        assert((a + b).drop_last() =~= a + b.drop_last());
    }
}

/// The text streamed to the front end, increment by increment, is exactly
/// the text of the deltas received, which is the text that is kept and
/// stored as the reply.
pub proof fn law_streamed_text_is_stored(ds: Seq<ChatDelta>)
    ensures
        streamed_text(events_of(ds)) == text_of_deltas(ds),
    decreases ds.len(),
{
    if ds.len() > 0 {
        law_streamed_text_is_stored(ds.drop_last());
        let d = ds.last();
        lemma_streamed_text_concat(events_of(ds.drop_last()), delta_events(d));
        let t = match d.content {
            Some(c) => if c@.len() > 0 { seq![StreamEvent::Delta { text: c }] } else { Seq::empty() },
            None => Seq::empty(),
        };
        let r = match d.reasoning {
            Some(c) => if c@.len() > 0 { seq![StreamEvent::Reasoning { text: c }] } else { Seq::empty() },
            None => Seq::empty(),
        };
        lemma_streamed_text_concat(t, r);
        reveal_with_fuel(streamed_text, 2);
        assert(streamed_text(r) == Seq::<char>::empty()) by {
            match d.reasoning {
                Some(c) => {
                    if c@.len() > 0 {
                        let r1 = seq![StreamEvent::Reasoning { text: c }];
                        assert(r1.drop_last() =~= Seq::<StreamEvent>::empty());
                        assert(r1.last() == StreamEvent::Reasoning { text: c });
                        assert(streamed_text(r1) =~= Seq::<char>::empty());
                    } else {
                        assert(streamed_text(Seq::<StreamEvent>::empty()) == Seq::<char>::empty());
                    }
                },
                None => {},
            }
        }
        assert(streamed_text(t) =~= delta_text(d)) by {
            if t.len() > 0 {
                assert(t.drop_last() =~= Seq::<StreamEvent>::empty());
            }
        }
    }
}

/// The delta of a `data:` payload: `content` and `reasoning_content` of
/// `choices[0].delta` (absent when `choices` is no array or is empty).
pub open spec fn delta_read_from(d: ChatDelta, data: Seq<char>) -> bool {
    if json_array_len_at(data, "/choices"@) matches Some(n) && n > 0 {
        &&& opt_view(d.content) == json_str_at(data, "/choices/0/delta/content"@)
        &&& opt_view(d.reasoning) == json_str_at(data, "/choices/0/delta/reasoning_content"@)
    } else {
        d.content is None && d.reasoning is None
    }
}

/// Reads the delta of a `data:` payload.
pub fn parse_chat_delta(data: &str) -> (d: ChatDelta)
    ensures
        delta_read_from(d, data@),
{
    match array_len_at(data, "/choices") {
        Some(n) => {
            if n > 0 {
                return ChatDelta {
                    content: str_at(data, "/choices/0/delta/content"),
                    reasoning: str_at(data, "/choices/0/delta/reasoning_content"),
                };
            }
        },
        None => {},
    }
    ChatDelta { content: None, reasoning: None }
}

impl ChatAccumulator {
    pub fn new() -> (r: ChatAccumulator)
        ensures
            r.full_text@.len() == 0,
            r.full_reasoning@.len() == 0,
    {
        ChatAccumulator { full_text: String::new(), full_reasoning: String::new() }
    }

    /// Takes one `data:` payload: one that is not JSON changes nothing;
    /// otherwise the delta read from it is taken as `on_delta` takes it.
    pub fn on_data(&mut self, data: &str) -> (events: Vec<StreamEvent>)
        ensures
            !json_parses(data@) ==> events@.len() == 0 && final(self).full_text == old(self).full_text
                && final(self).full_reasoning == old(self).full_reasoning,
            json_parses(data@) ==> exists|d: ChatDelta| #[trigger] delta_read_from(d, data@)
                && final(self).full_text@ == old(self).full_text@ + delta_text(d)
                && final(self).full_reasoning@ == old(self).full_reasoning@ + delta_reasoning(d)
                && events@ == delta_events(d),
    {
        if !parses(data) {
            return Vec::new();
        }
        let d = parse_chat_delta(data);
        self.on_delta(&d)
    }

    /// Takes one delta: non-empty text and reasoning accumulate and are
    /// passed on, text first.
    pub fn on_delta(&mut self, d: &ChatDelta) -> (events: Vec<StreamEvent>)
        ensures
            final(self).full_text@ == old(self).full_text@ + delta_text(*d),
            final(self).full_reasoning@ == old(self).full_reasoning@ + delta_reasoning(*d),
            events@ == delta_events(*d),
    {
        let mut events: Vec<StreamEvent> = Vec::new();
        match &d.content {
            Some(c) => {
                if c.as_str().unicode_len() > 0 {
                    push_str(&mut self.full_text, c.as_str());
                    events.push(StreamEvent::Delta { text: c.clone() });
                }
            },
            None => {},
        }
        match &d.reasoning {
            Some(c) => {
                if c.as_str().unicode_len() > 0 {
                    push_str(&mut self.full_reasoning, c.as_str());
                    events.push(StreamEvent::Reasoning { text: c.clone() });
                }
            },
            None => {},
        }
        assert(self.full_text@ =~= old(self).full_text@ + match d.content {
            Some(c) => c@,
            None => Seq::empty(),
        });
        assert(self.full_reasoning@ =~= old(self).full_reasoning@ + match d.reasoning {
            Some(c) => c@,
            None => Seq::empty(),
        });
        assert(events@ =~= (match d.content {
            Some(c) => if c@.len() > 0 { seq![StreamEvent::Delta { text: c }] } else { Seq::empty() },
            None => Seq::empty(),
        }) + match d.reasoning {
            Some(c) => if c@.len() > 0 { seq![StreamEvent::Reasoning { text: c }] } else { Seq::empty() },
            None => Seq::empty(),
        });
        events
    }

    /// The closing event, with the whole text.
    pub fn done_event(&self) -> (e: StreamEvent)
        ensures
            e == (StreamEvent::Done { text: self.full_text }),
    {
        StreamEvent::Done { text: self.full_text.clone() }
    }

    /// The items stored after the reply: the earlier ones, the user message,
    /// the reasoning when there was any, and the reply text.
    pub fn final_items(&self, history: Vec<TurnItem>, user_text: &str) -> (r: Vec<TurnItem>)
        ensures
            r@.len() == history@.len() + 2 + if self.full_reasoning@.len() > 0 { 1int } else { 0int },
            r@.take(history@.len() as int) == history@,
            r@[history@.len() as int] matches TurnItem::UserMessage { text, attachments } && text@ == user_text@
                && attachments@.len() == 0,
            self.full_reasoning@.len() > 0 ==> r@[history@.len() + 1int] == (TurnItem::AssistantReasoning { content: self.full_reasoning }),
            r@.last() == (TurnItem::AssistantText { text: self.full_text }),
    {
        let mut r = history;
        r.push(TurnItem::UserMessage { text: user_text.to_owned(), attachments: Vec::new() });
        if self.full_reasoning.as_str().unicode_len() > 0 {
            r.push(TurnItem::AssistantReasoning { content: self.full_reasoning.clone() });
        }
        r.push(TurnItem::AssistantText { text: self.full_text.clone() });
        assert(r@.take(history@.len() as int) =~= history@);
        r
    }
}

/// A session title from its first user message: its first 30 characters,
/// with `...` when the message is longer than 30 bytes.
pub open spec fn title_from(text: Seq<char>) -> Seq<char> {
    let t = text.take(if text.len() < 30 { text.len() as int } else { 30 });
    if crate::text::byte_len(text) > 30 {
        t + "..."@
    } else {
        t
    }
}

/// The title is still the default one (empty or `新对话`).
pub open spec fn untitled(title: Seq<char>) -> bool {
    title.len() == 0 || title == "新对话"@
}

/// Title derived from a first user message.
pub fn derive_title(text: &str) -> (r: String)
    ensures
        r@ == title_from(text@),
{
    let cs = str_chars(text);
    let lim = if cs.len() < 30 { cs.len() } else { 30 };
    let mut out: Vec<char> = Vec::new();
    let mut i: usize = 0;
    while i < lim
        invariant
            i <= lim <= cs@.len(),
            out@ == cs@.take(i as int),
        decreases lim - i,
    {
        out.push(cs[i]);
        i = i + 1;
        assert(out@ =~= cs@.take(i as int));
    }
    if crate::text::byte_len_exceeds(&cs, 30) {
        append_str(&mut out, "...");
    }
    string_from_chars(&out)
}

/// Whether a title is still the default one.
pub fn is_untitled(title: &str) -> (b: bool)
    ensures
        b == untitled(title@),
{
    title.unicode_len() == 0 || crate::agent::str_equal(title, "新对话")
}

/// Insertion of one turn into turns sorted by start time, after the turns
/// that started at the same time or earlier.
pub open spec fn insert_by_start(sorted: Seq<Turn>, t: Turn) -> Seq<Turn>
    decreases sorted.len(),
{
    if sorted.len() == 0 {
        seq![t]
    } else if sorted.last().started_at <= t.started_at {
        sorted.push(t)
    } else {
        insert_by_start(sorted.drop_last(), t).push(sorted.last())
    }
}

/// Turns ordered by start time; turns that started together keep their
/// order (a stable sort).
pub open spec fn by_start(ts: Seq<Turn>) -> Seq<Turn>
    decreases ts.len(),
{
    if ts.len() == 0 {
        Seq::empty()
    } else {
        insert_by_start(by_start(ts.drop_last()), ts.last())
    }
}

fn insert_turn(sorted: &mut Vec<Turn>, t: Turn)
    ensures
        final(sorted)@ == insert_by_start(old(sorted)@, t),
    decreases old(sorted)@.len(),
{
    if sorted.len() == 0 {
        sorted.push(t);
        return;
    }
    let n = sorted.len();
    if sorted[n - 1].started_at <= t.started_at {
        sorted.push(t);
    } else {
        let last = sorted.pop().unwrap();
        assert(sorted@ == old(sorted)@.drop_last());
        insert_turn(sorted, t);
        sorted.push(last);
    }
}

/// Stored turns ordered by start time (stable).
pub fn sort_turns_by_start(turns: Vec<Turn>) -> (r: Vec<Turn>)
    ensures
        r@ == by_start(turns@),
{
    let ghost orig = turns@;
    let mut rest = turns;
    let mut sorted: Vec<Turn> = Vec::new();
    while rest.len() > 0
        invariant
            rest@.len() <= orig.len(),
            rest@ == orig.skip(orig.len() - rest@.len()),
            sorted@ == by_start(orig.take(orig.len() - rest@.len())),
        decreases rest@.len(),
    {
        let ghost k = orig.len() - rest@.len();
        let t = rest.remove(0);
        proof {
            assert(t == orig[k]);
            assert(orig.take(k + 1).drop_last() =~= orig.take(k));
            assert(orig.take(k + 1).last() == orig[k]);
            assert(rest@ =~= orig.skip(k + 1));
        }
        insert_turn(&mut sorted, t);
    }
    assert(orig.take(orig.len() as int) =~= orig);
    sorted
}

} // verus!
