//! Anthropic Messages API: request messages (system prompt split off), the
//! reading of streamed events and of non-streamed replies. The caller does
//! the HTTP; the event payloads are read here through `serde_json`.
use vstd::prelude::*;
use std::collections::HashMap;
use crate::json::{json_parses, json_str_at, json_u64_at, parses, str_at, u64_at};
use crate::providers::openai_compat::{guess_mime, guessed_mime, text_of_blocks};
use crate::providers::types::{
    blocks_view, calls_view, chunks_view, opt_view, BlockView, CallView, ChatSyncResult, ChunkView,
    ContentBlock, ImageSource, ImageView, MessageRole, MsgView, StreamChunk, ToolCall, UnifiedMessage,
    msgs_view,
};
use crate::text::{
    append_chars, append_str, first_occurrence, remove_first, remove_first_chars, starts_with_seq,
    str_chars, starts_with_chars, string_from_chars, trim_chars, trim_seq, find_chars,
};

verus! {

/// Role of an Anthropic message.
#[derive(Debug, Clone, Copy, PartialEq, Eq, Structural)]
pub enum AnRole {
    User,
    Assistant,
}

/// A content block of an Anthropic message; `input` is JSON text.
#[derive(Debug, Clone)]
pub enum AnPart {
    Text(String),
    /// Inline base64 image.
    Image { media_type: String, data: String },
    /// Image in a local file, sent base64-encoded (empty when unreadable).
    ImageFile { media_type: String, path: String },
    ToolUse { id: String, name: String, input: String },
    ToolResult { tool_use_id: String, content: String },
}

/// An Anthropic message.
#[derive(Debug, Clone)]
pub struct AnMessage {
    pub role: AnRole,
    pub content: Vec<AnPart>,
}

/// Abstract content block.
pub ghost enum AnPartView {
    Text(Seq<char>),
    Image(Seq<char>, Seq<char>),
    ImageFile(Seq<char>, Seq<char>),
    ToolUse(Seq<char>, Seq<char>, Seq<char>),
    ToolResult(Seq<char>, Seq<char>),
}

impl View for AnPart {
    type V = AnPartView;

    open spec fn view(&self) -> AnPartView {
        match self {
            AnPart::Text(t) => AnPartView::Text(t@),
            AnPart::Image { media_type, data } => AnPartView::Image(media_type@, data@),
            AnPart::ImageFile { media_type, path } => AnPartView::ImageFile(media_type@, path@),
            AnPart::ToolUse { id, name, input } => AnPartView::ToolUse(id@, name@, input@),
            AnPart::ToolResult { tool_use_id, content } => AnPartView::ToolResult(tool_use_id@, content@),
        }
    }
}

pub open spec fn an_parts_view(v: Seq<AnPart>) -> Seq<AnPartView> {
    v.map_values(|p: AnPart| p@)
}

/// Abstract message.
pub ghost struct AnMsgView {
    pub role: AnRole,
    pub content: Seq<AnPartView>,
}

impl View for AnMessage {
    type V = AnMsgView;

    open spec fn view(&self) -> AnMsgView {
        AnMsgView { role: self.role, content: an_parts_view(self.content@) }
    }
}

pub open spec fn an_msgs_view(v: Seq<AnMessage>) -> Seq<AnMsgView> {
    v.map_values(|m: AnMessage| m@)
}

/// Header of a system-instruction message, removed when it becomes the system
/// prompt.
pub open spec fn instruction_header() -> Seq<char> {
    "[系统指令 — 遵循以下规则约束你的行为]\n\n"@
}

/// Header of a context-summary message, removed likewise.
pub open spec fn summary_header() -> Seq<char> {
    "[上下文摘要 — 之前对话的要点]\n"@
}

/// A user message that carries system instructions or a context summary.
pub open spec fn is_system_text(t: Seq<char>) -> bool {
    starts_with_seq(t, "[系统指令"@) || starts_with_seq(t, "[上下文摘要"@)
}

/// The system prompt block made from such a message.
pub open spec fn system_block(t: Seq<char>) -> Seq<char> {
    trim_seq(remove_first(remove_first(t, instruction_header()), summary_header()))
}

/// The part of a data URL before `;base64,` (the whole URL without it).
pub open spec fn url_head(u: Seq<char>) -> Seq<char> {
    match first_occurrence(u, ";base64,"@) {
        Some(i) => u.take(i),
        None => u,
    }
}

/// The base64 payload of a data URL: the text after the first `;base64,` up
/// to the next one (empty without it).
pub open spec fn url_payload(u: Seq<char>) -> Seq<char> {
    match first_occurrence(u, ";base64,"@) {
        Some(i) => url_head(u.skip(i + 8)),
        None => Seq::empty(),
    }
}

/// Media type of a data URL (`image/png` when it does not start with `data:`).
pub open spec fn url_media_type(u: Seq<char>) -> Seq<char> {
    if starts_with_seq(url_head(u), "data:"@) {
        url_head(u).skip(5)
    } else {
        "image/png"@
    }
}

/// The request block of a user content block, if any (empty text is dropped).
pub open spec fn user_part(b: BlockView) -> Seq<AnPartView> {
    match b {
        BlockView::Text(t) => if t.len() > 0 {
            seq![AnPartView::Text(t)]
        } else {
            Seq::empty()
        },
        BlockView::Image(ImageView::DataUrl(u)) => seq![AnPartView::Image(url_media_type(u), url_payload(u))],
        BlockView::Image(ImageView::FilePath(p, m)) => seq![AnPartView::ImageFile(
            match m {
                Some(t) => t,
                None => guessed_mime(p),
            },
            p,
        )],
    }
}

pub open spec fn user_parts(bs: Seq<BlockView>) -> Seq<AnPartView>
    decreases bs.len(),
{
    if bs.len() == 0 {
        Seq::empty()
    } else {
        user_parts(bs.drop_last()) + user_part(bs.last())
    }
}

pub open spec fn tool_use_parts(cs: Seq<CallView>) -> Seq<AnPartView> {
    cs.map_values(|c: CallView| AnPartView::ToolUse(c.id, c.name, c.arguments))
}

/// Blocks of an assistant message: its text (when not empty), then its tool
/// calls.
pub open spec fn assistant_parts(m: MsgView) -> Seq<AnPartView> {
    let t = text_of_blocks(m.content);
    (if t.len() > 0 {
        seq![AnPartView::Text(t)]
    } else {
        Seq::empty()
    }) + match m.tool_calls {
        Some(cs) => tool_use_parts(cs),
        None => Seq::empty(),
    }
}

/// Conversion of a conversation: system prompt blocks and messages.
pub open spec fn converted(ms: Seq<MsgView>) -> (Seq<Seq<char>>, Seq<AnMsgView>)
    decreases ms.len(),
{
    if ms.len() == 0 {
        (Seq::empty(), Seq::empty())
    } else {
        let (sys, out) = converted(ms.drop_last());
        let m = ms.last();
        let t = text_of_blocks(m.content);
        match m.role {
            MessageRole::User => if is_system_text(t) {
                (sys.push(system_block(t)), out)
            } else {
                (sys, out.push(AnMsgView { role: AnRole::User, content: user_parts(m.content) }))
            },
            MessageRole::Assistant => if assistant_parts(m).len() > 0 {
                (sys, out.push(AnMsgView { role: AnRole::Assistant, content: assistant_parts(m) }))
            } else {
                (sys, out)
            },
            MessageRole::Tool => (
                sys,
                out.push(
                    AnMsgView {
                        role: AnRole::User,
                        content: seq![AnPartView::ToolResult(
                            match m.tool_call_id {
                                Some(id) => id,
                                None => Seq::empty(),
                            },
                            t,
                        )],
                    },
                ),
            ),
        }
    }
}

fn seq_of(s: &str) -> (r: Vec<char>)
    ensures
        r@ == s@,
{
    str_chars(s)
}

fn blocks_text(bs: &Vec<ContentBlock>) -> (r: Vec<char>)
    ensures
        r@ == text_of_blocks(blocks_view(bs@)),
{
    let ghost bv = blocks_view(bs@);
    let mut out: Vec<char> = Vec::new();
    let mut i: usize = 0;
    while i < bs.len()
        invariant
            i <= bs@.len(),
            bv == blocks_view(bs@),
            out@ == text_of_blocks(bv.take(i as int)),
        decreases bs.len() - i,
    {
        proof {
            assert(bv.take(i + 1).drop_last() =~= bv.take(i as int));
            assert(bv[i as int] == bs@[i as int]@);
        }
        match &bs[i] {
            ContentBlock::Text { text } => append_str(&mut out, text.as_str()),
            ContentBlock::Image { .. } => {},
        }
        i = i + 1;
        assert(out@ =~= text_of_blocks(bv.take(i as int)));
    }
    assert(bv.take(i as int) =~= bv);
    out
}

fn url_head_exec(u: &Vec<char>) -> (r: Vec<char>)
    ensures
        r@ == url_head(u@),
{
    let sep = seq_of(";base64,");
    proof {
        crate::text::lemma_first_occurrence(u@, sep@);
    }
    match find_chars(u, &sep) {
        Some(i) => {
            let mut r: Vec<char> = Vec::new();
            let mut k: usize = 0;
            while k < i
                invariant
                    k <= i <= u@.len(),
                    r@ == u@.take(k as int),
                decreases i - k,
            {
                r.push(u[k]);
                k = k + 1;
                assert(r@ =~= u@.take(k as int));
            }
            r
        },
        None => {
            let mut r: Vec<char> = Vec::new();
            append_chars(&mut r, u);
            assert(r@ =~= u@);
            r
        },
    }
}

fn suffix(u: &Vec<char>, from: usize) -> (r: Vec<char>)
    requires
        from <= u@.len(),
    ensures
        r@ == u@.skip(from as int),
{
    let mut r: Vec<char> = Vec::new();
    let mut k: usize = from;
    while k < u.len()
        invariant
            from <= k <= u@.len(),
            r@ == u@.subrange(from as int, k as int),
        decreases u.len() - k,
    {
        r.push(u[k]);
        k = k + 1;
        assert(r@ =~= u@.subrange(from as int, k as int));
    }
    assert(r@ =~= u@.skip(from as int));
    r
}

/// Media type and payload of a `data:` image URL.
pub fn parse_data_url(url: &str) -> (r: (String, String))
    ensures
        r.0@ == url_media_type(url@),
        r.1@ == url_payload(url@),
{
    let u = str_chars(url);
    let head = url_head_exec(&u);
    let prefix = seq_of("data:");
    let media = if starts_with_chars(&head, &prefix) {
        proof {
            reveal_strlit("data:");
        }
        suffix(&head, 5)
    } else {
        seq_of("image/png")
    };
    let sep = seq_of(";base64,");
    proof {
        crate::text::lemma_first_occurrence(u@, sep@);
        reveal_strlit(";base64,");
    }
    let payload = match find_chars(&u, &sep) {
        Some(i) => {
            let ul = u.len();
            assert(i + 8 <= ul);
            let rest = suffix(&u, i + 8);
            url_head_exec(&rest)
        },
        None => Vec::new(),
    };
    (string_from_chars(&media), string_from_chars(&payload))
}

fn user_part_exec(b: &ContentBlock, out: &mut Vec<AnPart>)
    ensures
        an_parts_view(final(out)@) == an_parts_view(old(out)@) + user_part(b@),
{
    match b {
        ContentBlock::Text { text } => {
            if text.as_str().unicode_len() > 0 {
                out.push(AnPart::Text(text.clone()));
            }
        },
        ContentBlock::Image { source } => {
            match source {
                ImageSource::DataUrl { url } => {
                    let (media_type, data) = parse_data_url(url.as_str());
                    out.push(AnPart::Image { media_type, data });
                },
                ImageSource::FilePath { path, mime_type } => {
                    let media_type = match mime_type {
                        Some(m) => m.clone(),
                        None => guess_mime(path.as_str()),
                    };
                    out.push(AnPart::ImageFile { media_type, path: path.clone() });
                },
            }
        },
    }
    assert(an_parts_view(out@) =~= an_parts_view(old(out)@) + user_part(b@));
}

/// Converts a conversation to the Messages API: user messages that carry
/// system instructions or a context summary become system prompt blocks
/// (headers removed, trimmed); other user messages keep their non-empty text
/// and their images; assistant messages keep their text and tool calls and
/// are dropped when that leaves nothing; tool results become user messages.
pub fn convert_messages(messages: &Vec<UnifiedMessage>) -> (r: (Option<Vec<String>>, Vec<AnMessage>))
    ensures
        ({
            let (sys, out) = converted(msgs_view(messages@));
            &&& (sys.len() == 0 ==> r.0 is None)
            &&& (sys.len() > 0 ==> (r.0 matches Some(v) && crate::text::views(v@) == sys))
            &&& an_msgs_view(r.1@) == out
        }),
{
    let ghost mv = msgs_view(messages@);
    let mut system: Vec<String> = Vec::new();
    let mut out: Vec<AnMessage> = Vec::new();
    let instruction = seq_of("[系统指令 — 遵循以下规则约束你的行为]\n\n");
    let summary = seq_of("[上下文摘要 — 之前对话的要点]\n");
    let p1 = seq_of("[系统指令");
    let p2 = seq_of("[上下文摘要");
    let mut i: usize = 0;
    while i < messages.len()
        invariant
            i <= messages@.len(),
            mv == msgs_view(messages@),
            instruction@ == instruction_header(),
            summary@ == summary_header(),
            p1@ == "[系统指令"@,
            p2@ == "[上下文摘要"@,
            crate::text::views(system@) == converted(mv.take(i as int)).0,
            an_msgs_view(out@) == converted(mv.take(i as int)).1,
        decreases messages.len() - i,
    {
        proof {
            assert(mv.take(i + 1).drop_last() =~= mv.take(i as int));
            assert(mv.take(i + 1).last() == messages@[i as int]@);
        }
        let m = &messages[i];
        let text = blocks_text(&m.content);
        match m.role {
            MessageRole::User => {
                if starts_with_chars(&text, &p1) || starts_with_chars(&text, &p2) {
                    let a = remove_first_chars(&text, &instruction);
                    let b = remove_first_chars(&a, &summary);
                    let c = trim_chars(&b);
                    system.push(string_from_chars(&c));
                    assert(crate::text::views(system@) =~= converted(mv.take(i + 1)).0);
                } else {
                    let ghost bv = blocks_view(m.content@);
                    let mut parts: Vec<AnPart> = Vec::new();
                    let mut j: usize = 0;
                    while j < m.content.len()
                        invariant
                            j <= m.content@.len(),
                            bv == blocks_view(m.content@),
                            an_parts_view(parts@) == user_parts(bv.take(j as int)),
                        decreases m.content.len() - j,
                    {
                        proof {
                            assert(bv.take(j + 1).drop_last() =~= bv.take(j as int));
                            assert(bv[j as int] == m.content@[j as int]@);
                        }
                        user_part_exec(&m.content[j], &mut parts);
                        j = j + 1;
                    }
                    assert(bv.take(j as int) =~= bv);
                    out.push(AnMessage { role: AnRole::User, content: parts });
                    assert(an_msgs_view(out@) =~= converted(mv.take(i + 1)).1);
                }
            },
            MessageRole::Assistant => {
                let mut parts: Vec<AnPart> = Vec::new();
                if text.len() > 0 {
                    parts.push(AnPart::Text(string_from_chars(&text)));
                }
                let ghost head = an_parts_view(parts@);
                match &m.tool_calls {
                    Some(cs) => {
                        let ghost cv = calls_view(cs@);
                        let mut j: usize = 0;
                        while j < cs.len()
                            invariant
                                j <= cs@.len(),
                                cv == calls_view(cs@),
                                an_parts_view(parts@) == head + tool_use_parts(cv.take(j as int)),
                            decreases cs.len() - j,
                        {
                            let ghost pb = an_parts_view(parts@);
                            parts.push(AnPart::ToolUse { id: cs[j].id.clone(), name: cs[j].name.clone(), input: cs[j].arguments.clone() });
                            proof {
                                assert(cv.take(j + 1) =~= cv.take(j as int).push(cv[j as int]));
                                assert(tool_use_parts(cv.take(j + 1)) =~= tool_use_parts(cv.take(j as int)).push(
                                    AnPartView::ToolUse(cv[j as int].id, cv[j as int].name, cv[j as int].arguments),
                                ));
                                assert(an_parts_view(parts@) =~= pb.push(
                                    AnPartView::ToolUse(cv[j as int].id, cv[j as int].name, cv[j as int].arguments),
                                ));
                            }
                            j = j + 1;
                            assert(an_parts_view(parts@) =~= head + tool_use_parts(cv.take(j as int)));
                        }
                        assert(cv.take(j as int) =~= cv);
                    },
                    None => {},
                }
                assert(an_parts_view(parts@) =~= assistant_parts(messages@[i as int]@));
                if parts.len() > 0 {
                    out.push(AnMessage { role: AnRole::Assistant, content: parts });
                    assert(an_msgs_view(out@) =~= converted(mv.take(i + 1)).1);
                }
            },
            MessageRole::Tool => {
                let id = match &m.tool_call_id {
                    Some(s) => s.clone(),
                    None => String::new(),
                };
                let mut parts: Vec<AnPart> = Vec::new();
                let ghost idv = id@;
                parts.push(AnPart::ToolResult { tool_use_id: id, content: string_from_chars(&text) });
                assert(an_parts_view(parts@) =~= seq![AnPartView::ToolResult(idv, text@)]);
                let ghost ob = an_msgs_view(out@);
                out.push(AnMessage { role: AnRole::User, content: parts });
                assert(an_msgs_view(out@) =~= ob.push(AnMsgView { role: AnRole::User, content: seq![AnPartView::ToolResult(idv, text@)] }));
                assert(an_msgs_view(out@) =~= converted(mv.take(i + 1)).1);
            },
        }
        i = i + 1;
    }
    assert(mv.take(i as int) =~= mv);
    if system.len() == 0 {
        (None, out)
    } else {
        (Some(system), out)
    }
}

/// One parsed streaming event (fields absent or of another type are `None`).
#[derive(Debug, Clone)]
pub struct AnEvent {
    /// `type`.
    pub kind: Option<String>,
    /// `index` (as an unsigned integer).
    pub index: Option<u64>,
    /// `content_block.type`, `.id`, `.name`.
    pub block_type: Option<String>,
    pub block_id: Option<String>,
    pub block_name: Option<String>,
    /// `delta.type`, `.text`, `.partial_json`, `.thinking`.
    pub delta_type: Option<String>,
    pub delta_text: Option<String>,
    pub partial_json: Option<String>,
    pub thinking: Option<String>,
    /// `error.message`.
    pub error_message: Option<String>,
}

/// What the stream does after an event.
#[derive(Debug, Clone)]
pub enum AnControl {
    Continue,
    /// `message_stop`: the reply is complete.
    Stop,
    /// An `error` event, with its message.
    Fail(String),
}

/// Reading state of a stream: the open tool-use blocks by index.
pub struct AnStream {
    pub tools: HashMap<u64, (String, String)>,
}

pub open spec fn text_or(o: Option<String>, d: Seq<char>) -> Seq<char> {
    match o {
        Some(s) => s@,
        None => d,
    }
}

pub open spec fn nonempty_text(o: Option<String>) -> Option<Seq<char>> {
    match o {
        Some(s) => if s@.len() > 0 {
            Some(s@)
        } else {
            None
        },
        None => None,
    }
}

/// The `event:` name and the `data:` payload among the lines of an event
/// (the last of each wins; the name is trimmed).
pub open spec fn event_fields(lines: Seq<Seq<char>>) -> (Seq<char>, Seq<char>)
    decreases lines.len(),
{
    if lines.len() == 0 {
        (Seq::empty(), Seq::empty())
    } else {
        let (e, d) = event_fields(lines.drop_last());
        let l = lines.last();
        (
            if starts_with_seq(l, "event: "@) {
                trim_seq(l.skip(7))
            } else {
                e
            },
            if starts_with_seq(l, "data: "@) {
                l.skip(6)
            } else {
                d
            },
        )
    }
}

/// The lines of the event being read from a stream.
pub struct EventLines {
    pub pending: Vec<String>,
}

impl EventLines {
    /// No line read yet.
    pub fn new() -> (r: EventLines)
        ensures
            r.pending@.len() == 0,
    {
        EventLines { pending: Vec::new() }
    }

    /// Reads one (trimmed) line: a blank line ends the event being read and
    /// hands out its lines, when it has any; another line joins it.
    pub fn push_line(&mut self, line: String) -> (r: Option<Vec<String>>)
        ensures
            line@.len() == 0 && old(self).pending@.len() > 0 ==> r == Some(old(self).pending)
                && final(self).pending@.len() == 0,
            line@.len() == 0 && old(self).pending@.len() == 0 ==> r is None && final(self).pending@.len() == 0,
            line@.len() > 0 ==> r is None && final(self).pending@ == old(self).pending@.push(line),
    {
        if line.as_str().unicode_len() == 0 {
            if self.pending.len() > 0 {
                let mut done: Vec<String> = Vec::new();
                std::mem::swap(&mut done, &mut self.pending);
                Some(done)
            } else {
                None
            }
        } else {
            self.pending.push(line);
            None
        }
    }
}

/// Splits the lines of one event into its name and payload.
pub fn event_name_and_data(lines: &Vec<String>) -> (r: (String, String))
    ensures
        (r.0@, r.1@) == event_fields(crate::text::views(lines@)),
{
    let ghost lv = crate::text::views(lines@);
    let ev = seq_of("event: ");
    let da = seq_of("data: ");
    proof {
        reveal_strlit("event: ");
        reveal_strlit("data: ");
    }
    let mut name: Vec<char> = Vec::new();
    let mut data: Vec<char> = Vec::new();
    let mut i: usize = 0;
    while i < lines.len()
        invariant
            i <= lines@.len(),
            lv == crate::text::views(lines@),
            ev@ == "event: "@,
            da@ == "data: "@,
            ev@.len() == 7,
            da@.len() == 6,
            (name@, data@) == event_fields(lv.take(i as int)),
        decreases lines.len() - i,
    {
        proof {
            assert(lv.take(i + 1).drop_last() =~= lv.take(i as int));
            assert(lv[i as int] == lines@[i as int]@);
        }
        let l = str_chars(lines[i].as_str());
        if starts_with_chars(&l, &ev) {
            let rest = suffix(&l, 7);
            name = trim_chars(&rest);
        }
        if starts_with_chars(&l, &da) {
            data = suffix(&l, 6);
        }
        i = i + 1;
    }
    assert(lv.take(i as int) =~= lv);
    (string_from_chars(&name), string_from_chars(&data))
}

/// One Anthropic stream event read from `old_tools` (the open tool-use
/// blocks by index): the open blocks after it, the chunks it streams and what
/// the stream does next.
pub open spec fn event_step(
    old_tools: Map<u64, (String, String)>,
    new_tools: Map<u64, (String, String)>,
    event_name: Seq<char>,
    ev: AnEvent,
    chunks: Seq<ChunkView>,
    control: AnControl,
) -> bool {
        let kind = text_or(ev.kind, event_name);
        let index = match ev.index {
            Some(i) => i,
            None => 0u64,
        };
        if kind == "content_block_start"@ {
            if ev.block_type matches Some(bt) && bt@ == "tool_use"@ {
                new_tools.dom() =~= old_tools.dom().insert(index)
                    && new_tools.contains_key(index)
                    && new_tools[index].0@ == text_or(ev.block_id, Seq::empty())
                    && new_tools[index].1@ == text_or(ev.block_name, Seq::empty())
                    && (forall|k: u64| k != index && old_tools.contains_key(k) ==> new_tools[k] == old_tools[k])
                    && chunks =~= seq![ChunkView::ToolCallStart(
                        text_or(ev.block_id, Seq::empty()),
                        text_or(ev.block_name, Seq::empty()),
                    )] && control is Continue
            } else {
                new_tools =~= old_tools && chunks.len() == 0 && control is Continue
            }
        } else if kind == "content_block_delta"@ {
            let dt = text_or(ev.delta_type, Seq::empty());
            new_tools =~= old_tools && control is Continue && chunks =~= if dt
                == "text_delta"@ {
                match nonempty_text(ev.delta_text) {
                    Some(t) => seq![ChunkView::TextDelta(t)],
                    None => Seq::empty(),
                }
            } else if dt == "input_json_delta"@ {
                match nonempty_text(ev.partial_json) {
                    Some(p) => if old_tools.contains_key(index) {
                        seq![ChunkView::ToolCallDelta(old_tools[index].0@, p)]
                    } else {
                        Seq::empty()
                    },
                    None => Seq::empty(),
                }
            } else if dt == "thinking_delta"@ {
                match nonempty_text(ev.thinking) {
                    Some(t) => seq![ChunkView::ThinkingDelta(t)],
                    None => Seq::empty(),
                }
            } else {
                Seq::empty()
            }
        } else if kind == "content_block_stop"@ {
            new_tools =~= old_tools.remove(index) && control is Continue && chunks
                =~= if old_tools.contains_key(index) {
                seq![ChunkView::ToolCallEnd(old_tools[index].0@)]
            } else {
                Seq::empty()
            }
        } else if kind == "message_stop"@ {
            new_tools =~= old_tools && control is Stop && chunks =~= seq![
                ChunkView::Done(Some("stop"@)),
            ]
        } else if kind == "error"@ {
            let msg = text_or(ev.error_message, "未知 Anthropic API 错误"@);
            new_tools =~= old_tools && (control matches AnControl::Fail(m) && m@ == msg)
                && chunks =~= seq![ChunkView::Error(msg)]
        } else {
            new_tools =~= old_tools && chunks.len() == 0 && control is Continue
        }
}

/// The event that a `data:` payload carries: each field read from the JSON
/// text at its place (`type`, `index`, `content_block.*`, `delta.*`,
/// `error.message`).
pub open spec fn event_read_from(e: AnEvent, data: Seq<char>) -> bool {
    &&& opt_view(e.kind) == json_str_at(data, "/type"@)
    &&& e.index == json_u64_at(data, "/index"@)
    &&& opt_view(e.block_type) == json_str_at(data, "/content_block/type"@)
    &&& opt_view(e.block_id) == json_str_at(data, "/content_block/id"@)
    &&& opt_view(e.block_name) == json_str_at(data, "/content_block/name"@)
    &&& opt_view(e.delta_type) == json_str_at(data, "/delta/type"@)
    &&& opt_view(e.delta_text) == json_str_at(data, "/delta/text"@)
    &&& opt_view(e.partial_json) == json_str_at(data, "/delta/partial_json"@)
    &&& opt_view(e.thinking) == json_str_at(data, "/delta/thinking"@)
    &&& opt_view(e.error_message) == json_str_at(data, "/error/message"@)
}

/// Reads the event of a `data:` payload.
pub fn parse_event(data: &str) -> (e: AnEvent)
    ensures
        event_read_from(e, data@),
{
    AnEvent {
        kind: str_at(data, "/type"),
        index: u64_at(data, "/index"),
        block_type: str_at(data, "/content_block/type"),
        block_id: str_at(data, "/content_block/id"),
        block_name: str_at(data, "/content_block/name"),
        delta_type: str_at(data, "/delta/type"),
        delta_text: str_at(data, "/delta/text"),
        partial_json: str_at(data, "/delta/partial_json"),
        thinking: str_at(data, "/delta/thinking"),
        error_message: str_at(data, "/error/message"),
    }
}

impl AnStream {
    /// No open tool-use block.
    pub fn new() -> (r: AnStream)
        ensures
            r.tools@ == Map::<u64, (String, String)>::empty(),
    {
        AnStream { tools: HashMap::new() }
    }

    /// Reads one event (its `type`, or the `event:` name when it has none):
    /// a tool-use block start opens a call; text, argument and thinking deltas
    /// are passed on (argument deltas only for open calls); a block stop
    /// closes the call at that index; `message_stop` ends the reply and
    /// `error` fails it.
    pub fn on_event(&mut self, event_name: &str, ev: &AnEvent) -> (r: (Vec<StreamChunk>, AnControl))
        ensures
            event_step(old(self).tools@, final(self).tools@, event_name@, *ev, chunks_view(r.0@), r.1),
    {
        broadcast use vstd::std_specs::hash::group_hash_axioms;
        let kind = match &ev.kind {
            Some(k) => k.clone(),
            None => event_name.to_owned(),
        };
        let index: u64 = match ev.index {
            Some(i) => i,
            None => 0,
        };
        let mut out: Vec<StreamChunk> = Vec::new();
        let k = kind.as_str();
        if crate::agent::str_equal(k, "content_block_start") {
            let is_tool = match &ev.block_type {
                Some(bt) => crate::agent::str_equal(bt.as_str(), "tool_use"),
                None => false,
            };
            if is_tool {
                let id = match &ev.block_id {
                    Some(s) => s.clone(),
                    None => String::new(),
                };
                let name = match &ev.block_name {
                    Some(s) => s.clone(),
                    None => String::new(),
                };
                self.tools.insert(index, (id.clone(), name.clone()));
                out.push(StreamChunk::ToolCallStart { id, name });
                assert(chunks_view(out@) =~= seq![ChunkView::ToolCallStart(
                    text_or(ev.block_id, Seq::empty()),
                    text_or(ev.block_name, Seq::empty()),
                )]);
            }
            proof {
                assert(chunks_view(out@).len() == out@.len());
            }
            (out, AnControl::Continue)
        } else if crate::agent::str_equal(k, "content_block_delta") {
            let dt = match &ev.delta_type {
                Some(s) => s.clone(),
                None => String::new(),
            };
            if crate::agent::str_equal(dt.as_str(), "text_delta") {
                match &ev.delta_text {
                    Some(t) => {
                        if t.as_str().unicode_len() > 0 {
                            out.push(StreamChunk::TextDelta { delta: t.clone() });
                        }
                    },
                    None => {},
                }
            } else if crate::agent::str_equal(dt.as_str(), "input_json_delta") {
                match &ev.partial_json {
                    Some(p) => {
                        if p.as_str().unicode_len() > 0 {
                            match self.tools.get(&index) {
                                Some(entry) => {
                                    out.push(StreamChunk::ToolCallDelta { id: entry.0.clone(), arguments_delta: p.clone() });
                                },
                                None => {},
                            }
                        }
                    },
                    None => {},
                }
            } else if crate::agent::str_equal(dt.as_str(), "thinking_delta") {
                match &ev.thinking {
                    Some(t) => {
                        if t.as_str().unicode_len() > 0 {
                            out.push(StreamChunk::ThinkingDelta { delta: t.clone() });
                        }
                    },
                    None => {},
                }
            }
            proof {
                assert(chunks_view(out@).len() == out@.len());
            }
            (out, AnControl::Continue)
        } else if crate::agent::str_equal(k, "content_block_stop") {
            match self.tools.remove(&index) {
                Some(entry) => {
                    out.push(StreamChunk::ToolCallEnd { id: entry.0 });
                },
                None => {},
            }
            (out, AnControl::Continue)
        } else if crate::agent::str_equal(k, "message_stop") {
            out.push(StreamChunk::Done { finish_reason: Some("stop".to_owned()) });
            assert(chunks_view(out@) =~= seq![ChunkView::Done(Some("stop"@))]);
            (out, AnControl::Stop)
        } else if crate::agent::str_equal(k, "error") {
            let msg = match &ev.error_message {
                Some(m) => m.clone(),
                None => "未知 Anthropic API 错误".to_owned(),
            };
            out.push(StreamChunk::Error { message: msg.clone() });
            assert(chunks_view(out@) =~= seq![ChunkView::Error(text_or(ev.error_message, "未知 Anthropic API 错误"@))]);
            (out, AnControl::Fail(msg))
        } else {
            proof {
                assert(chunks_view(out@).len() == out@.len());
            }
            (out, AnControl::Continue)
        }
    }

    /// Reads one event given as its name and `data:` payload: an empty
    /// payload, or one that is not JSON, is skipped; otherwise the event read
    /// from it is taken as `on_event` takes it.
    pub fn on_data(&mut self, event_name: &str, data: &str) -> (r: (Vec<StreamChunk>, AnControl))
        ensures
            (data@.len() == 0 || !json_parses(data@)) ==> (r.0@.len() == 0 && r.1 is Continue
                && final(self).tools@ == old(self).tools@),
            (data@.len() > 0 && json_parses(data@)) ==> exists|e: AnEvent| #[trigger] event_read_from(e, data@)
                && event_step(old(self).tools@, final(self).tools@, event_name@, e, chunks_view(r.0@), r.1),
    {
        if data.unicode_len() == 0 || !parses(data) {
            return (Vec::new(), AnControl::Continue);
        }
        let e = parse_event(data);
        self.on_event(event_name, &e)
    }
}

/// A content block of a non-streamed reply.
#[derive(Debug, Clone)]
pub struct AnReplyBlock {
    /// `type`.
    pub kind: Option<String>,
    pub text: Option<String>,
    pub id: Option<String>,
    pub name: Option<String>,
    /// JSON text of `input` (`null` when absent).
    pub input: String,
}

/// Text blocks of a reply, concatenated.
pub open spec fn reply_text(bs: Seq<AnReplyBlock>) -> Seq<char>
    decreases bs.len(),
{
    if bs.len() == 0 {
        Seq::empty()
    } else {
        reply_text(bs.drop_last()) + match (bs.last().kind, bs.last().text) {
            (Some(k), Some(t)) => if k@ == "text"@ {
                t@
            } else {
                Seq::empty()
            },
            _ => Seq::empty(),
        }
    }
}

/// Tool-use blocks of a reply as calls.
pub open spec fn reply_calls(bs: Seq<AnReplyBlock>) -> Seq<CallView>
    decreases bs.len(),
{
    if bs.len() == 0 {
        Seq::empty()
    } else {
        let rest = reply_calls(bs.drop_last());
        let b = bs.last();
        match b.kind {
            Some(k) => if k@ == "tool_use"@ {
                rest.push(CallView { id: text_or(b.id, Seq::empty()), name: text_or(b.name, Seq::empty()), arguments: b.input@ })
            } else {
                rest
            },
            None => rest,
        }
    }
}

/// Reading of a non-streamed reply: its tool-use blocks as calls when there
/// are any (no reasoning), else its text.
pub fn sync_result(blocks: &Vec<AnReplyBlock>) -> (r: ChatSyncResult)
    ensures
        reply_calls(blocks@).len() > 0 ==> (r matches ChatSyncResult::ToolCalls { calls, reasoning }
            && calls_view(calls@) == reply_calls(blocks@) && reasoning is None),
        reply_calls(blocks@).len() == 0 ==> (r matches ChatSyncResult::Content(t) && t@ == reply_text(blocks@)),
{
    let mut text: Vec<char> = Vec::new();
    let mut calls: Vec<ToolCall> = Vec::new();
    let mut i: usize = 0;
    while i < blocks.len()
        invariant
            i <= blocks@.len(),
            text@ == reply_text(blocks@.take(i as int)),
            calls_view(calls@) == reply_calls(blocks@.take(i as int)),
        decreases blocks.len() - i,
    {
        proof {
            assert(blocks@.take(i + 1).drop_last() =~= blocks@.take(i as int));
            assert(blocks@.take(i + 1).last() == blocks@[i as int]);
            reveal_strlit("text");
            reveal_strlit("tool_use");
            assert("text"@[1] != "tool_use"@[1]);
        }
        let b = &blocks[i];
        match &b.kind {
            Some(k) => {
                if crate::agent::str_equal(k.as_str(), "text") {
                    match &b.text {
                        Some(t) => append_str(&mut text, t.as_str()),
                        None => {},
                    }
                } else if crate::agent::str_equal(k.as_str(), "tool_use") {
                    let id = match &b.id {
                        Some(s) => s.clone(),
                        None => String::new(),
                    };
                    let name = match &b.name {
                        Some(s) => s.clone(),
                        None => String::new(),
                    };
                    let ghost cb = calls_view(calls@);
                    calls.push(ToolCall { id, name, arguments: b.input.clone() });
                    assert(calls_view(calls@) =~= cb.push(CallView { id: text_or(b.id, Seq::empty()), name: text_or(b.name, Seq::empty()), arguments: b.input@ }));
                }
            },
            None => {},
        }
        i = i + 1;
        assert(text@ =~= reply_text(blocks@.take(i as int)));
        assert(calls_view(calls@) =~= reply_calls(blocks@.take(i as int)));
    }
    assert(blocks@.take(i as int) =~= blocks@);
    if calls.len() > 0 {
        ChatSyncResult::ToolCalls { calls, reasoning: None }
    } else {
        ChatSyncResult::Content(string_from_chars(&text))
    }
}

/// The text of a non-streamed reply without tools: its text blocks
/// concatenated.
pub fn reply_text_of(blocks: &Vec<AnReplyBlock>) -> (r: String)
    ensures
        r@ == reply_text(blocks@),
{
    let mut text: Vec<char> = Vec::new();
    let mut i: usize = 0;
    while i < blocks.len()
        invariant
            i <= blocks@.len(),
            text@ == reply_text(blocks@.take(i as int)),
        decreases blocks.len() - i,
    {
        proof {
            assert(blocks@.take(i + 1).drop_last() =~= blocks@.take(i as int));
            assert(blocks@.take(i + 1).last() == blocks@[i as int]);
        }
        let b = &blocks[i];
        match (&b.kind, &b.text) {
            (Some(k), Some(t)) => {
                if crate::agent::str_equal(k.as_str(), "text") {
                    append_str(&mut text, t.as_str());
                }
            },
            _ => {},
        }
        i = i + 1;
        assert(text@ =~= reply_text(blocks@.take(i as int)));
    }
    assert(blocks@.take(i as int) =~= blocks@);
    string_from_chars(&text)
}

} // verus!
