//! OpenAI-compatible chat completions (OpenAI, DeepSeek, DashScope, Groq,
//! Ollama, LM Studio, ...): request messages, the reading of streamed and
//! non-streamed replies, and image data URLs. The caller does the HTTP and
//! turns JSON into the plain types below.
use vstd::prelude::*;
use crate::json::{
    array_len_at, index_pointer, json_array_len_at, json_object_at, json_parses, json_reformat, json_str_at,
    object_at, parses, pointer_to, reformat, str_at,
};
use crate::providers::types::{
    blocks_view, calls_view, chunks_view, opt_view, BlockView, CallView, ChatSyncResult, ChunkView,
    ContentBlock, ImageSource, MessageRole, StreamChunk, ToolCall, ToolDefinition, UnifiedMessage,
};
use crate::text::{
    append_chars, append_str, starts_with_seq, str_chars, str_starts_with, string_from_chars,
};

verus! {

/// One part of a multi-part (vision) message.
#[derive(Debug, Clone)]
pub enum OaPart {
    Text(String),
    /// An image given by URL (a data URL for inline images), detail `auto`.
    ImageUrl(String),
    /// An image in a local file: sent as a data URL when it can be read,
    /// else as the path itself.
    ImageFile(String),
}

/// Message content: plain text, or parts when the message has images.
#[derive(Debug, Clone)]
pub enum OaContent {
    Text(String),
    Parts(Vec<OaPart>),
}

/// A message of the chat completions request.
#[derive(Debug, Clone)]
pub struct OaMessage {
    pub role: MessageRole,
    pub content: OaContent,
    pub tool_calls: Option<Vec<ToolCall>>,
    pub tool_call_id: Option<String>,
    pub reasoning_content: Option<String>,
}

/// Concatenated text blocks of a message.
pub open spec fn text_of_blocks(bs: Seq<BlockView>) -> Seq<char>
    decreases bs.len(),
{
    if bs.len() == 0 {
        Seq::empty()
    } else {
        text_of_blocks(bs.drop_last()) + match bs.last() {
            BlockView::Text(t) => t,
            BlockView::Image(_) => Seq::empty(),
        }
    }
}

/// The message has an image block.
pub open spec fn has_image(bs: Seq<BlockView>) -> bool {
    exists|i: int| 0 <= i < bs.len() && bs[i] is Image
}

/// Abstract request part.
pub ghost enum PartView {
    Text(Seq<char>),
    ImageUrl(Seq<char>),
    ImageFile(Seq<char>),
}

impl View for OaPart {
    type V = PartView;

    open spec fn view(&self) -> PartView {
        match self {
            OaPart::Text(t) => PartView::Text(t@),
            OaPart::ImageUrl(u) => PartView::ImageUrl(u@),
            OaPart::ImageFile(p) => PartView::ImageFile(p@),
        }
    }
}

/// The request part for a content block.
pub open spec fn part_of(b: BlockView) -> PartView {
    match b {
        BlockView::Text(t) => PartView::Text(t),
        BlockView::Image(crate::providers::types::ImageView::DataUrl(u)) => PartView::ImageUrl(u),
        BlockView::Image(crate::providers::types::ImageView::FilePath(p, _)) => PartView::ImageFile(p),
    }
}

pub open spec fn parts_view(v: Seq<OaPart>) -> Seq<PartView> {
    v.map_values(|p: OaPart| p@)
}

/// The request parts for some content blocks.
pub open spec fn parts_of(bs: Seq<BlockView>) -> Seq<PartView> {
    bs.map_values(|b: BlockView| part_of(b))
}

/// Content of a converted message: parts when it has an image, else its text.
pub open spec fn content_matches(c: OaContent, bs: Seq<BlockView>) -> bool {
    if has_image(bs) {
        c matches OaContent::Parts(ps) && parts_view(ps@) == parts_of(bs)
    } else {
        c matches OaContent::Text(t) && t@ == text_of_blocks(bs)
    }
}

/// A message with any image block converts to a parts list with one part per
/// block, in order: each image block gives an image part (by URL or by file)
/// and each text block a text part with its text.
pub proof fn law_image_message_converts_to_parts(c: OaContent, bs: Seq<BlockView>, k: int)
    requires
        content_matches(c, bs),
        0 <= k < bs.len(),
        bs[k] is Image,
    ensures
        c matches OaContent::Parts(ps) && ps@.len() == bs.len() && (ps@[k]@ is ImageUrl
            || ps@[k]@ is ImageFile) && forall|i: int|
            0 <= i < bs.len() ==> (#[trigger] bs[i] matches BlockView::Text(t) ==> ps@[i]@ == PartView::Text(t)),
{
    assert(has_image(bs));
    if let OaContent::Parts(ps) = c {
        assert(parts_view(ps@).len() == ps@.len());
        assert forall|i: int| 0 <= i < bs.len() implies (#[trigger] bs[i] matches BlockView::Text(t) ==> ps@[i]@ == PartView::Text(t)) by {
            assert(parts_view(ps@)[i] == ps@[i]@);
            assert(parts_of(bs)[i] == part_of(bs[i]));
        }
        assert(parts_view(ps@)[k] == ps@[k]@);
        assert(parts_of(bs)[k] == part_of(bs[k]));
    }
}

/// A message without image blocks converts to plain text: the text of its
/// blocks, concatenated.
pub proof fn law_text_message_converts_to_text(c: OaContent, bs: Seq<BlockView>)
    requires
        content_matches(c, bs),
        forall|i: int| 0 <= i < bs.len() ==> #[trigger] bs[i] is Text,
    ensures
        c matches OaContent::Text(t) && t@ == text_of_blocks(bs),
{
}

fn clone_calls(calls: &Vec<ToolCall>) -> (r: Vec<ToolCall>)
    ensures
        calls_view(r@) == calls_view(calls@),
{
    crate::agent::run::clone_calls(calls)
}

fn clone_opt(o: &Option<String>) -> (r: Option<String>)
    ensures
        opt_view(r) == opt_view(*o),
{
    match o {
        Some(s) => Some(s.clone()),
        None => None,
    }
}

/// Converts one message to the chat completions format.
pub fn convert_message(msg: &UnifiedMessage) -> (r: OaMessage)
    ensures
        r.role == msg.role,
        content_matches(r.content, blocks_view(msg.content@)),
        match (r.tool_calls, msg.tool_calls) {
            (Some(a), Some(b)) => calls_view(a@) == calls_view(b@),
            (None, None) => true,
            _ => false,
        },
        opt_view(r.tool_call_id) == opt_view(msg.tool_call_id),
        opt_view(r.reasoning_content) == opt_view(msg.reasoning_content),
{
    let ghost bv = blocks_view(msg.content@);
    let mut image = false;
    let mut text: Vec<char> = Vec::new();
    let mut parts: Vec<OaPart> = Vec::new();
    let mut i: usize = 0;
    while i < msg.content.len()
        invariant
            i <= msg.content@.len(),
            bv == blocks_view(msg.content@),
            image == has_image(bv.take(i as int)),
            text@ == text_of_blocks(bv.take(i as int)),
            parts@.len() == i,
            parts_view(parts@) == parts_of(bv.take(i as int)),
        decreases msg.content.len() - i,
    {
        proof {
            assert(bv.take(i + 1).drop_last() =~= bv.take(i as int));
            assert(bv[i as int] == msg.content@[i as int]@);
        }
        let ghost pb = parts@;
        match &msg.content[i] {
            ContentBlock::Text { text: t } => {
                append_str(&mut text, t.as_str());
                parts.push(OaPart::Text(t.clone()));
            },
            ContentBlock::Image { source } => {
                image = true;
                match source {
                    ImageSource::DataUrl { url } => parts.push(OaPart::ImageUrl(url.clone())),
                    ImageSource::FilePath { path, .. } => parts.push(OaPart::ImageFile(path.clone())),
                }
            },
        }
        proof {
            assert(bv[i as int] == msg.content@[i as int]@);
            if image {
                assert(has_image(bv.take(i + 1))) by {
                    if has_image(bv.take(i as int)) {
                        let w = choose|w: int| 0 <= w < bv.take(i as int).len() && bv.take(i as int)[w] is Image;
                        assert(bv.take(i + 1)[w] is Image);
                    } else {
                        assert(bv.take(i + 1)[i as int] is Image);
                    }
                }
            } else {
                assert(!has_image(bv.take(i + 1))) by {
                    assert forall|w: int| 0 <= w < bv.take(i + 1).len() implies !(#[trigger] bv.take(i + 1)[w] is Image) by {
                        if w < i {
                            assert(bv.take(i + 1)[w] == bv.take(i as int)[w]);
                        }
                    }
                }
            }
        }
        assert(parts@ == pb.push(parts@[i as int]));
        assert(parts@[i as int]@ == part_of(bv[i as int]));
        assert forall|k: int| 0 <= k < i + 1 implies #[trigger] parts_view(parts@)[k]
            == parts_of(bv.take(i + 1))[k] by {
            if k < i {
                assert(parts_view(pb)[k] == parts_of(bv.take(i as int))[k]);
                assert(parts@[k] == pb[k]);
            }
        }
        i = i + 1;
        assert(parts_view(parts@) =~= parts_of(bv.take(i as int)));
    }
    assert(bv.take(i as int) =~= bv);
    let content = if image {
        OaContent::Parts(parts)
    } else {
        OaContent::Text(string_from_chars(&text))
    };
    let tool_calls = match &msg.tool_calls {
        Some(cs) => Some(clone_calls(cs)),
        None => None,
    };
    OaMessage {
        role: msg.role,
        content,
        tool_calls,
        tool_call_id: clone_opt(&msg.tool_call_id),
        reasoning_content: clone_opt(&msg.reasoning_content),
    }
}

/// Converts all messages, in order.
pub fn convert_messages(messages: &Vec<UnifiedMessage>) -> (r: Vec<OaMessage>)
    ensures
        r@.len() == messages@.len(),
        forall|i: int| 0 <= i < r@.len() ==> r@[i].role == messages@[i].role && content_matches(
            #[trigger] r@[i].content,
            blocks_view(messages@[i].content@),
        ),
{
    let mut r: Vec<OaMessage> = Vec::new();
    let mut i: usize = 0;
    while i < messages.len()
        invariant
            i <= messages@.len(),
            r@.len() == i,
            forall|k: int| 0 <= k < i ==> r@[k].role == messages@[k].role && content_matches(
                #[trigger] r@[k].content,
                blocks_view(messages@[k].content@),
            ),
        decreases messages.len() - i,
    {
        r.push(convert_message(&messages[i]));
        i = i + 1;
    }
    r
}

/// Tools offered in a request: none when the list is empty.
pub fn convert_tools(tools: Vec<ToolDefinition>) -> (r: Option<Vec<ToolDefinition>>)
    ensures
        tools@.len() == 0 ==> r is None,
        tools@.len() > 0 ==> r == Some(tools),
{
    if tools.len() == 0 {
        None
    } else {
        Some(tools)
    }
}

/// What a line of the event stream carries.
#[derive(Debug, Clone)]
pub enum SseLine {
    /// Not a `data: ` line.
    Other,
    /// The `[DONE]` marker.
    Done,
    /// A JSON payload.
    Data(String),
}

/// Classifies a line of the event stream.
pub fn classify_line(line: &str) -> (r: SseLine)
    ensures
        !starts_with_seq(line@, "data: "@) ==> r is Other,
        starts_with_seq(line@, "data: "@) && line@.skip(6) == "[DONE]"@ ==> r is Done,
        starts_with_seq(line@, "data: "@) && line@.skip(6) != "[DONE]"@ ==> (r matches SseLine::Data(d) && d@ == line@.skip(6)),
{
    if !str_starts_with(line, "data: ") {
        return SseLine::Other;
    }
    proof {
        reveal_strlit("data: ");
    }
    let cs = str_chars(line);
    let mut rest: Vec<char> = Vec::new();
    let mut i: usize = 6;
    while i < cs.len()
        invariant
            6 <= i <= cs@.len(),
            cs@ == line@,
            rest@ == cs@.subrange(6, i as int),
        decreases cs.len() - i,
    {
        rest.push(cs[i]);
        i = i + 1;
        assert(rest@ =~= cs@.subrange(6, i as int));
    }
    assert(rest@ =~= line@.skip(6));
    let d = string_from_chars(&rest);
    if crate::agent::str_equal(d.as_str(), "[DONE]") {
        SseLine::Done
    } else {
        SseLine::Data(d)
    }
}

/// A streamed tool-call fragment.
#[derive(Debug, Clone)]
pub struct OaToolDelta {
    pub id: Option<String>,
    pub name: Option<String>,
    pub arguments: Option<String>,
}

/// One streamed choice.
#[derive(Debug, Clone)]
pub struct OaChoice {
    pub reasoning: Option<String>,
    pub content: Option<String>,
    pub tool_calls: Option<Vec<OaToolDelta>>,
    pub finish_reason: Option<String>,
}

/// One parsed `data: ` payload.
#[derive(Debug, Clone)]
pub struct OaStreamChunk {
    /// `None` when `choices` is not an array.
    pub choices: Option<Vec<OaChoice>>,
    /// Present when `error` is an object; holds its `message` string if any.
    pub error: Option<Option<String>>,
}

/// Events of one tool-call fragment.
pub open spec fn delta_events(d: OaToolDelta) -> Seq<ChunkView> {
    (match d.id {
        Some(id) => seq![ChunkView::ToolCallStart(id@, match d.name {
            Some(n) => n@,
            None => Seq::empty(),
        })],
        None => Seq::empty(),
    }) + match d.arguments {
        Some(a) => if a@.len() > 0 {
            seq![ChunkView::ToolCallDelta(match d.id {
                Some(id) => id@,
                None => Seq::empty(),
            }, a@)]
        } else {
            Seq::empty()
        },
        None => Seq::empty(),
    }
}

pub open spec fn deltas_events(ds: Seq<OaToolDelta>) -> Seq<ChunkView>
    decreases ds.len(),
{
    if ds.len() == 0 {
        Seq::empty()
    } else {
        deltas_events(ds.drop_last()) + delta_events(ds.last())
    }
}

/// End events for the fragments that carry an id.
pub open spec fn end_events(ds: Seq<OaToolDelta>) -> Seq<ChunkView>
    decreases ds.len(),
{
    if ds.len() == 0 {
        Seq::empty()
    } else {
        end_events(ds.drop_last()) + match ds.last().id {
            Some(id) => seq![ChunkView::ToolCallEnd(id@)],
            None => Seq::empty(),
        }
    }
}

/// A non-empty optional text.
pub open spec fn nonempty(o: Option<String>) -> Option<Seq<char>> {
    match o {
        Some(s) => if s@.len() > 0 {
            Some(s@)
        } else {
            None
        },
        None => None,
    }
}

/// Events of one choice: reasoning, text, call fragments, and call ends when
/// it finished for tool calls.
pub open spec fn choice_events(c: OaChoice) -> Seq<ChunkView> {
    let calls = match c.tool_calls {
        Some(v) => v@,
        None => Seq::empty(),
    };
    (match nonempty(c.reasoning) {
        Some(r) => seq![ChunkView::ThinkingDelta(r)],
        None => Seq::empty(),
    }) + (match nonempty(c.content) {
        Some(t) => seq![ChunkView::TextDelta(t)],
        None => Seq::empty(),
    }) + deltas_events(calls) + match c.finish_reason {
        Some(f) => if f@ == "tool_calls"@ {
            end_events(calls)
        } else {
            Seq::empty()
        },
        None => Seq::empty(),
    }
}

pub open spec fn choices_events(cs: Seq<OaChoice>) -> Seq<ChunkView>
    decreases cs.len(),
{
    if cs.len() == 0 {
        Seq::empty()
    } else {
        choices_events(cs.drop_last()) + choice_events(cs.last())
    }
}

/// Message of an error payload.
pub open spec fn error_message(e: Option<String>) -> Seq<char> {
    match e {
        Some(m) => m@,
        None => "未知错误"@,
    }
}

fn delta_events_exec(d: &OaToolDelta, out: &mut Vec<StreamChunk>)
    ensures
        chunks_view(final(out)@) == chunks_view(old(out)@) + delta_events(*d),
{
    match &d.id {
        Some(id) => {
            let name = match &d.name {
                Some(n) => n.clone(),
                None => String::new(),
            };
            out.push(StreamChunk::ToolCallStart { id: id.clone(), name });
        },
        None => {},
    }
    match &d.arguments {
        Some(a) => {
            if a.as_str().unicode_len() > 0 {
                let id = match &d.id {
                    Some(i) => i.clone(),
                    None => String::new(),
                };
                out.push(StreamChunk::ToolCallDelta { id, arguments_delta: a.clone() });
            }
        },
        None => {},
    }
    assert(chunks_view(out@) =~= chunks_view(old(out)@) + delta_events(*d));
}

fn choice_events_exec(c: &OaChoice, out: &mut Vec<StreamChunk>)
    ensures
        chunks_view(final(out)@) == chunks_view(old(out)@) + choice_events(*c),
{
    let ghost start = chunks_view(out@);
    match &c.reasoning {
        Some(r) => {
            if r.as_str().unicode_len() > 0 {
                out.push(StreamChunk::ThinkingDelta { delta: r.clone() });
            }
        },
        None => {},
    }
    match &c.content {
        Some(t) => {
            if t.as_str().unicode_len() > 0 {
                out.push(StreamChunk::TextDelta { delta: t.clone() });
            }
        },
        None => {},
    }
    let ghost mid = chunks_view(out@);
    assert(mid =~= start + (match nonempty(c.reasoning) {
        Some(r) => seq![ChunkView::ThinkingDelta(r)],
        None => Seq::empty(),
    }) + (match nonempty(c.content) {
        Some(t) => seq![ChunkView::TextDelta(t)],
        None => Seq::empty(),
    }));
    let empty: Vec<OaToolDelta> = Vec::new();
    let calls = match &c.tool_calls {
        Some(v) => v,
        None => &empty,
    };
    assert(calls@ == match c.tool_calls {
        Some(v) => v@,
        None => Seq::empty(),
    });
    let mut i: usize = 0;
    while i < calls.len()
        invariant
            i <= calls@.len(),
            chunks_view(out@) == mid + deltas_events(calls@.take(i as int)),
        decreases calls.len() - i,
    {
        proof {
            assert(calls@.take(i + 1).drop_last() =~= calls@.take(i as int));
        }
        delta_events_exec(&calls[i], out);
        i = i + 1;
    }
    assert(calls@.take(i as int) =~= calls@);
    let ghost mid2 = chunks_view(out@);
    let ends = match &c.finish_reason {
        Some(f) => crate::agent::str_equal(f.as_str(), "tool_calls"),
        None => false,
    };
    if ends {
        let mut j: usize = 0;
        while j < calls.len()
            invariant
                j <= calls@.len(),
                chunks_view(out@) == mid2 + end_events(calls@.take(j as int)),
            decreases calls.len() - j,
        {
            proof {
                assert(calls@.take(j + 1).drop_last() =~= calls@.take(j as int));
                assert(calls@.take(j + 1).last() == calls@[j as int]);
            }
            let ghost before = chunks_view(out@);
            match &calls[j].id {
                Some(id) => {
                    out.push(StreamChunk::ToolCallEnd { id: id.clone() });
                },
                None => {},
            }
            assert(chunks_view(out@) =~= before + match calls@[j as int].id {
                Some(id) => seq![ChunkView::ToolCallEnd(id@)],
                None => Seq::empty(),
            });
            j = j + 1;
            assert(chunks_view(out@) =~= mid2 + end_events(calls@.take(j as int)));
        }
        assert(calls@.take(j as int) =~= calls@);
    }
    assert(chunks_view(out@) =~= chunks_view(old(out)@) + choice_events(*c));
}

/// Events of one streamed payload, and the error that ends the stream if
/// the payload carries one.
pub fn stream_payload_events(p: &OaStreamChunk) -> (r: (Vec<StreamChunk>, Option<String>))
    ensures
        chunks_view(r.0@) == (match p.choices {
            Some(cs) => choices_events(cs@),
            None => Seq::empty(),
        }) + match p.error {
            Some(e) => seq![ChunkView::Error(error_message(e))],
            None => Seq::empty(),
        },
        match p.error {
            Some(e) => r.1 matches Some(m) && m@ == error_message(e),
            None => r.1 is None,
        },
{
    let mut out: Vec<StreamChunk> = Vec::new();
    match &p.choices {
        Some(cs) => {
            let mut i: usize = 0;
            while i < cs.len()
                invariant
                    i <= cs@.len(),
                    chunks_view(out@) == choices_events(cs@.take(i as int)),
                decreases cs.len() - i,
            {
                proof {
                    assert(cs@.take(i + 1).drop_last() =~= cs@.take(i as int));
                }
                choice_events_exec(&cs[i], &mut out);
                i = i + 1;
            }
            assert(cs@.take(i as int) =~= cs@);
        },
        None => {
            assert(chunks_view(out@) =~= Seq::<ChunkView>::empty());
        },
    }
    let ghost before = chunks_view(out@);
    match &p.error {
        Some(e) => {
            let m = match e {
                Some(m) => m.clone(),
                None => "未知错误".to_owned(),
            };
            out.push(StreamChunk::Error { message: m.clone() });
            assert(chunks_view(out@) =~= before + seq![ChunkView::Error(error_message(*e))]);
            (out, Some(m))
        },
        None => {
            assert(chunks_view(out@) =~= before + Seq::<ChunkView>::empty());
            (out, None)
        },
    }
}

/// Events sent when the stream ends without `[DONE]`.
pub fn stream_end_events() -> (r: Vec<StreamChunk>)
    ensures
        chunks_view(r@) == seq![ChunkView::ThinkingDone, ChunkView::Done(Some("stop"@))],
{
    let mut r: Vec<StreamChunk> = Vec::new();
    r.push(StreamChunk::ThinkingDone {  });
    r.push(StreamChunk::Done { finish_reason: Some("stop".to_owned()) });
    assert(chunks_view(r@) =~= seq![ChunkView::ThinkingDone, ChunkView::Done(Some("stop"@))]);
    r
}

/// A tool call of a non-streamed reply.
#[derive(Debug, Clone)]
pub struct OaReplyCall {
    pub id: Option<String>,
    pub name: Option<String>,
    /// The `function.arguments` string.
    pub arguments: Option<String>,
}

/// The message of a non-streamed reply.
#[derive(Debug, Clone)]
pub struct OaReply {
    /// `None` when `tool_calls` is not an array.
    pub tool_calls: Option<Vec<OaReplyCall>>,
    pub reasoning: Option<String>,
    pub content: Option<String>,
}

/// Arguments of a replied call: its argument string re-written as compact
/// JSON, or `{}` when absent or not JSON.
pub open spec fn reply_arguments(a: Option<String>) -> Seq<char> {
    match a {
        Some(s) => match json_reformat(s@) {
            Some(j) => j,
            None => "{}"@,
        },
        None => "{}"@,
    }
}

/// The calls kept from a reply: those with both an id and a name.
pub open spec fn reply_calls(cs: Seq<OaReplyCall>) -> Seq<CallView>
    decreases cs.len(),
{
    if cs.len() == 0 {
        Seq::empty()
    } else {
        let rest = reply_calls(cs.drop_last());
        let c = cs.last();
        match (c.id, c.name) {
            (Some(i), Some(n)) => rest.push(CallView { id: i@, name: n@, arguments: reply_arguments(c.arguments) }),
            _ => rest,
        }
    }
}

/// Reading of a non-streamed reply: tool calls when it requests any (with
/// its reasoning), else its text (empty when absent).
pub fn sync_result(reply: &OaReply) -> (r: ChatSyncResult)
    ensures
        match reply.tool_calls {
            Some(cs) if cs@.len() > 0 => r matches ChatSyncResult::ToolCalls { calls, reasoning } && calls_view(
                calls@,
            ) == reply_calls(cs@) && opt_view(reasoning) == opt_view(reply.reasoning),
            _ => r matches ChatSyncResult::Content(t) && t@ == match reply.content {
                Some(c) => c@,
                None => Seq::empty(),
            },
        },
{
    match &reply.tool_calls {
        Some(cs) => {
            if cs.len() > 0 {
                let mut calls: Vec<ToolCall> = Vec::new();
                let mut i: usize = 0;
                while i < cs.len()
                    invariant
                        i <= cs@.len(),
                        calls_view(calls@) == reply_calls(cs@.take(i as int)),
                    decreases cs.len() - i,
                {
                    proof {
                        assert(cs@.take(i + 1).drop_last() =~= cs@.take(i as int));
                    }
                    match (&cs[i].id, &cs[i].name) {
                        (Some(id), Some(name)) => {
                            let arguments = match &cs[i].arguments {
                                Some(a) => match reformat(a.as_str()) {
                                    Some(j) => j,
                                    None => "{}".to_owned(),
                                },
                                None => "{}".to_owned(),
                            };
                            calls.push(ToolCall { id: id.clone(), name: name.clone(), arguments });
                        },
                        _ => {},
                    }
                    i = i + 1;
                    assert(calls_view(calls@) =~= reply_calls(cs@.take(i as int)));
                }
                assert(cs@.take(i as int) =~= cs@);
                return ChatSyncResult::ToolCalls { calls, reasoning: clone_opt(&reply.reasoning) };
            }
        },
        None => {},
    }
    ChatSyncResult::Content(
        match &reply.content {
            Some(c) => c.clone(),
            None => String::new(),
        },
    )
}

/// A tool-call fragment read from element `j` of `tool_calls` in choice `i`
/// of a payload (`id`, `function.name`, `function.arguments`).
pub open spec fn tool_read_from(t: OaToolDelta, data: Seq<char>, i: nat, j: nat) -> bool {
    let base = index_pointer("/choices"@, i, "/delta/tool_calls"@);
    &&& opt_view(t.id) == json_str_at(data, index_pointer(base, j, "/id"@))
    &&& opt_view(t.name) == json_str_at(data, index_pointer(base, j, "/function/name"@))
    &&& opt_view(t.arguments) == json_str_at(data, index_pointer(base, j, "/function/arguments"@))
}

/// Choice `i` read from a payload: `delta.reasoning_content`,
/// `delta.content`, the `delta.tool_calls` array (when it is one) and
/// `finish_reason`.
pub open spec fn choice_read_from(c: OaChoice, data: Seq<char>, i: nat) -> bool {
    &&& opt_view(c.reasoning) == json_str_at(data, index_pointer("/choices"@, i, "/delta/reasoning_content"@))
    &&& opt_view(c.content) == json_str_at(data, index_pointer("/choices"@, i, "/delta/content"@))
    &&& opt_view(c.finish_reason) == json_str_at(data, index_pointer("/choices"@, i, "/finish_reason"@))
    &&& match c.tool_calls {
        None => json_array_len_at(data, index_pointer("/choices"@, i, "/delta/tool_calls"@)) is None,
        Some(ts) => json_array_len_at(data, index_pointer("/choices"@, i, "/delta/tool_calls"@)) == Some(
            ts@.len(),
        ) && forall|j: int| 0 <= j < ts@.len() ==> tool_read_from(#[trigger] ts@[j], data, i, j as nat),
    }
}

/// A streamed payload read from its JSON text: the `choices` array (when it
/// is one) and, when `error` is an object, its `message`.
pub open spec fn chunk_read_from(c: OaStreamChunk, data: Seq<char>) -> bool {
    &&& match c.choices {
        None => json_array_len_at(data, "/choices"@) is None,
        Some(cs) => json_array_len_at(data, "/choices"@) == Some(cs@.len()) && forall|i: int|
            0 <= i < cs@.len() ==> choice_read_from(#[trigger] cs@[i], data, i as nat),
    }
    &&& match c.error {
        None => !json_object_at(data, "/error"@),
        Some(m) => json_object_at(data, "/error"@) && opt_view(m) == json_str_at(data, "/error/message"@),
    }
}

fn read_tool_calls(data: &str, i: usize) -> (r: Option<Vec<OaToolDelta>>)
    ensures
        match r {
            None => json_array_len_at(data@, index_pointer("/choices"@, i as nat, "/delta/tool_calls"@)) is None,
            Some(ts) => json_array_len_at(data@, index_pointer("/choices"@, i as nat, "/delta/tool_calls"@))
                == Some(ts@.len()) && forall|j: int| 0 <= j < ts@.len() ==> tool_read_from(
                #[trigger] ts@[j],
                data@,
                i as nat,
                j as nat,
            ),
        },
{
    let base = pointer_to("/choices", i, "/delta/tool_calls");
    match array_len_at(data, base.as_str()) {
        None => None,
        Some(n) => {
            let mut ts: Vec<OaToolDelta> = Vec::new();
            let mut j: usize = 0;
            while j < n
                invariant
                    j <= n,
                    base@ == index_pointer("/choices"@, i as nat, "/delta/tool_calls"@),
                    ts@.len() == j,
                    forall|k: int| 0 <= k < j ==> tool_read_from(#[trigger] ts@[k], data@, i as nat, k as nat),
                decreases n - j,
            {
                let pid = pointer_to(base.as_str(), j, "/id");
                let pname = pointer_to(base.as_str(), j, "/function/name");
                let pargs = pointer_to(base.as_str(), j, "/function/arguments");
                let t = OaToolDelta {
                    id: str_at(data, pid.as_str()),
                    name: str_at(data, pname.as_str()),
                    arguments: str_at(data, pargs.as_str()),
                };
                ts.push(t);
                j = j + 1;
            }
            Some(ts)
        },
    }
}

/// Reads a streamed payload from its JSON text.
pub fn parse_stream_chunk(data: &str) -> (c: OaStreamChunk)
    ensures
        chunk_read_from(c, data@),
{
    let choices = match array_len_at(data, "/choices") {
        None => None,
        Some(n) => {
            let mut cs: Vec<OaChoice> = Vec::new();
            let mut i: usize = 0;
            while i < n
                invariant
                    i <= n,
                    cs@.len() == i,
                    forall|k: int| 0 <= k < i ==> choice_read_from(#[trigger] cs@[k], data@, k as nat),
                decreases n - i,
            {
                let pr = pointer_to("/choices", i, "/delta/reasoning_content");
                let pc = pointer_to("/choices", i, "/delta/content");
                let pf = pointer_to("/choices", i, "/finish_reason");
                let c = OaChoice {
                    reasoning: str_at(data, pr.as_str()),
                    content: str_at(data, pc.as_str()),
                    tool_calls: read_tool_calls(data, i),
                    finish_reason: str_at(data, pf.as_str()),
                };
                cs.push(c);
                i = i + 1;
            }
            Some(cs)
        },
    };
    let error = if object_at(data, "/error") {
        Some(str_at(data, "/error/message"))
    } else {
        None
    };
    OaStreamChunk { choices, error }
}

/// The events of one `data:` payload: none, and no error, when it is not
/// JSON; otherwise those of the payload read from it.
pub fn data_events(data: &str) -> (r: (Vec<StreamChunk>, Option<String>))
    ensures
        !json_parses(data@) ==> r.0@.len() == 0 && r.1 is None,
        json_parses(data@) ==> exists|p: OaStreamChunk| #[trigger] chunk_read_from(p, data@) && chunks_view(r.0@)
            == (match p.choices {
            Some(cs) => choices_events(cs@),
            None => Seq::empty(),
        }) + (match p.error {
            Some(e) => seq![ChunkView::Error(error_message(e))],
            None => Seq::empty(),
        }) && (match p.error {
            Some(e) => r.1 matches Some(m) && m@ == error_message(e),
            None => r.1 is None,
        }),
{
    if !parses(data) {
        return (Vec::new(), None);
    }
    let p = parse_stream_chunk(data);
    stream_payload_events(&p)
}

/// Largest image file sent inline: 20 MiB.
pub const MAX_IMAGE_BYTES: usize = 20971520;

/// The MIME type `mime_guess` infers from a path's extension
/// (`application/octet-stream` when unknown).
pub uninterp spec fn guessed_mime(path: Seq<char>) -> Seq<char>;

/// The character of a 6-bit value in the standard base64 alphabet
/// (`A`–`Z`, `a`–`z`, `0`–`9`, `+`, `/`).
pub open spec fn b64_digit(v: nat) -> char {
    if v < 26 {
        (65 + v) as char
    } else if v < 52 {
        (97 + (v - 26)) as char
    } else if v < 62 {
        (48 + (v - 52)) as char
    } else if v == 62 {
        '+'
    } else {
        '/'
    }
}

/// Standard base64 with padding (RFC 4648): each group of three bytes gives
/// four characters of six bits each; a last group of one or two bytes is
/// padded with `=` to four characters.
pub open spec fn base64_standard(data: Seq<u8>) -> Seq<char>
    decreases data.len(),
{
    if data.len() == 0 {
        Seq::empty()
    } else if data.len() == 1 {
        let a = data[0] as nat;
        seq![b64_digit(a / 4), b64_digit((a % 4) * 16), '=', '=']
    } else if data.len() == 2 {
        let a = data[0] as nat;
        let b = data[1] as nat;
        seq![b64_digit(a / 4), b64_digit((a % 4) * 16 + b / 16), b64_digit((b % 16) * 4), '=']
    } else {
        let a = data[0] as nat;
        let b = data[1] as nat;
        let c = data[2] as nat;
        seq![
            b64_digit(a / 4),
            b64_digit((a % 4) * 16 + b / 16),
            b64_digit((b % 16) * 4 + c / 64),
            b64_digit(c % 64),
        ] + base64_standard(data.skip(3))
    }
}

/// `mime_guess::from_path(path).first_or_octet_stream()`, as text. The
/// contract only ties the result to the name `guessed_mime` of the path.
#[verifier::external_body]
pub(crate) fn guess_mime(path: &str) -> (r: String)
    ensures
        r@ == guessed_mime(path@),
{
    mime_guess::from_path(path).first_or_octet_stream().to_string()
}

/// `base64::engine::general_purpose::STANDARD.encode(data)`: the standard
/// alphabet with `=` padding, as the crate documents for `STANDARD`.
#[verifier::external_body]
fn base64_encode(data: &[u8]) -> (r: String)
    ensures
        r@ == base64_standard(data@),
{
    base64::Engine::encode(&base64::engine::general_purpose::STANDARD, data)
}

/// The data URL of an image file with these contents: refused above 20 MiB.
pub fn image_data_url(path: &str, data: &Vec<u8>) -> (r: Result<String, String>)
    ensures
        data@.len() > MAX_IMAGE_BYTES ==> (r matches Err(e) && e@ == "图片文件过大（超过20MB）"@),
        data@.len() <= MAX_IMAGE_BYTES ==> (r matches Ok(u) && u@ == "data:"@ + guessed_mime(path@)
            + ";base64,"@ + base64_standard(data@)),
{
    if data.len() > MAX_IMAGE_BYTES {
        return Err("图片文件过大（超过20MB）".to_owned());
    }
    let mime = guess_mime(path);
    let b64 = base64_encode(data.as_slice());
    let mut out: Vec<char> = Vec::new();
    append_str(&mut out, "data:");
    append_str(&mut out, mime.as_str());
    append_str(&mut out, ";base64,");
    append_str(&mut out, b64.as_str());
    Ok(string_from_chars(&out))
}

} // verus!
