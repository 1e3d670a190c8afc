//! Model clients of the turn loop (Anthropic Messages and OpenAI chat
//! completions): request messages from the domain model, and the decoding of
//! their event streams into stream items. The caller does the HTTP and parses
//! each `data:` payload into the plain event types below.
use vstd::prelude::*;
use crate::domain::{ContentPart, Message, MessageRole, TokenUsage};
use crate::paths::split_on;
use crate::ports::{ModelError, StreamChunk};
use crate::text::{
    append_chars, append_str, join, starts_with_seq, str_chars, starts_with_chars, string_from_chars,
    trim_chars, trim_seq, views,
};

verus! {

/// `s` without any number of leading copies of `p`.
pub open spec fn strip_all(s: Seq<char>, p: Seq<char>) -> Seq<char>
    decreases s.len(),
{
    if p.len() > 0 && starts_with_seq(s, p) {
        strip_all(s.skip(p.len() as int), p)
    } else {
        s
    }
}

/// Index of the first `c` in `s`.
pub open spec fn index_of(s: Seq<char>, c: char) -> Option<int> {
    if exists|i: int| 0 <= i < s.len() && s[i] == c {
        Some(choose|i: int| 0 <= i < s.len() && s[i] == c && forall|k: int| 0 <= k < i ==> s[k] != c)
    } else {
        None
    }
}

/// Media type and data of an image URL for the Anthropic API: a `data:` URL
/// with a comma gives the type before the first `;` of its header and the
/// text after the comma; anything else is sent as JPEG data as it is.
pub open spec fn image_parts(url: Seq<char>) -> (Seq<char>, Seq<char>) {
    if starts_with_seq(url, "data:"@) {
        match index_of(url, ',') {
            Some(i) => {
                let header = strip_all(url.take(i), "data:"@);
                let media = match index_of(header, ';') {
                    Some(j) => header.take(j),
                    None => header,
                };
                (media, url.skip(i + 1))
            },
            None => ("image/jpeg"@, url),
        }
    } else {
        ("image/jpeg"@, url)
    }
}

/// A content block of an Anthropic request; `input` is JSON text.
#[derive(Debug, Clone)]
pub enum ClientPart {
    Text(String),
    Image { media_type: String, data: String },
    ToolUse { id: String, name: String, input: String },
    ToolResult { tool_use_id: String, content: String, is_error: Option<bool> },
}

/// A message of an Anthropic request (user or assistant).
#[derive(Debug, Clone)]
pub struct ClientMessage {
    pub role: MessageRole,
    pub content: Vec<ClientPart>,
}

fn index_of_exec(s: &Vec<char>, c: char) -> (r: Option<usize>)
    ensures
        r matches Some(i) ==> i < s@.len() && s@[i as int] == c,
        match r {
            Some(i) => index_of(s@, c) == Some(i as int),
            None => index_of(s@, c) is None,
        },
{
    let mut i: usize = 0;
    while i < s.len()
        invariant
            i <= s@.len(),
            forall|k: int| 0 <= k < i ==> s@[k] != c,
        decreases s.len() - i,
    {
        if s[i] == c {
            proof {
                let w = choose|w: int| 0 <= w < s@.len() && s@[w] == c && forall|k: int| 0 <= k < w ==> s@[k] != c;
                assert(0 <= w < s@.len() && s@[w] == c && forall|k: int| 0 <= k < w ==> s@[k] != c);
                assert(w == i);
            }
            return Some(i);
        }
        i = i + 1;
    }
    None
}

fn take_chars(s: &Vec<char>, n: usize) -> (r: Vec<char>)
    requires
        n <= s@.len(),
    ensures
        r@ == s@.take(n as int),
{
    let mut r: Vec<char> = Vec::new();
    let mut i: usize = 0;
    while i < n
        invariant
            i <= n <= s@.len(),
            r@ == s@.take(i as int),
        decreases n - i,
    {
        r.push(s[i]);
        i = i + 1;
        assert(r@ =~= s@.take(i as int));
    }
    r
}

fn skip_chars(s: &Vec<char>, n: usize) -> (r: Vec<char>)
    requires
        n <= s@.len(),
    ensures
        r@ == s@.skip(n as int),
{
    let mut r: Vec<char> = Vec::new();
    let mut i: usize = n;
    while i < s.len()
        invariant
            n <= i <= s@.len(),
            r@ == s@.subrange(n as int, i as int),
        decreases s.len() - i,
    {
        r.push(s[i]);
        i = i + 1;
        assert(r@ =~= s@.subrange(n as int, i as int));
    }
    assert(r@ =~= s@.skip(n as int));
    r
}

/// Media type and data of an image URL.
pub fn split_image_url(url: &str) -> (r: (String, String))
    ensures
        (r.0@, r.1@) == image_parts(url@),
{
    let u = str_chars(url);
    let data = str_chars("data:");
    proof {
        reveal_strlit("data:");
    }
    if !starts_with_chars(&u, &data) {
        return ("image/jpeg".to_owned(), url.to_owned());
    }
    match index_of_exec(&u, ',') {
        Some(i) => {
            let mut header = take_chars(&u, i);
            let ghost h0 = header@;
            while starts_with_chars(&header, &data)
                invariant
                    data@ == "data:"@,
                    data@.len() == 5,
                    strip_all(header@, "data:"@) == strip_all(h0, "data:"@),
                decreases header@.len(),
            {
                header = skip_chars(&header, 5);
            }
            let media = match index_of_exec(&header, ';') {
                Some(j) => take_chars(&header, j),
                None => header,
            };
            let ul = u.len();
            assert(i < ul);
            let rest = skip_chars(&u, i + 1);
            (string_from_chars(&media), string_from_chars(&rest))
        },
        None => ("image/jpeg".to_owned(), url.to_owned()),
    }
}

/// Texts of the text parts of a message.
pub open spec fn part_texts(ps: Seq<ContentPart>) -> Seq<Seq<char>>
    decreases ps.len(),
{
    if ps.len() == 0 {
        Seq::empty()
    } else {
        let rest = part_texts(ps.drop_last());
        match ps.last() {
            ContentPart::Text { text } => rest.push(text@),
            _ => rest,
        }
    }
}

fn part_texts_exec(ps: &Vec<ContentPart>) -> (r: Vec<String>)
    ensures
        views(r@) == part_texts(ps@),
{
    let mut r: Vec<String> = Vec::new();
    let mut i: usize = 0;
    while i < ps.len()
        invariant
            i <= ps@.len(),
            views(r@) == part_texts(ps@.take(i as int)),
        decreases ps.len() - i,
    {
        proof {
            assert(ps@.take(i + 1).drop_last() =~= ps@.take(i as int));
            assert(ps@.take(i + 1).last() == ps@[i as int]);
        }
        let ghost before = views(r@);
        match &ps[i] {
            ContentPart::Text { text } => {
                r.push(text.clone());
                assert(views(r@) =~= before.push(text@));
            },
            _ => {},
        }
        i = i + 1;
    }
    assert(ps@.take(i as int) =~= ps@);
    r
}

/// Abstract Anthropic request part.
pub ghost enum ClientPartView {
    Text(Seq<char>),
    Image(Seq<char>, Seq<char>),
    ToolUse(Seq<char>, Seq<char>, Seq<char>),
    ToolResult(Seq<char>, Seq<char>, Option<bool>),
}

impl View for ClientPart {
    type V = ClientPartView;

    open spec fn view(&self) -> ClientPartView {
        match self {
            ClientPart::Text(t) => ClientPartView::Text(t@),
            ClientPart::Image { media_type, data } => ClientPartView::Image(media_type@, data@),
            ClientPart::ToolUse { id, name, input } => ClientPartView::ToolUse(id@, name@, input@),
            ClientPart::ToolResult { tool_use_id, content, is_error } => ClientPartView::ToolResult(tool_use_id@, content@, *is_error),
        }
    }
}

/// The request part for a message part.
pub open spec fn client_part(p: ContentPart) -> ClientPartView {
    match p {
        ContentPart::Text { text } => ClientPartView::Text(text@),
        ContentPart::Image { url, .. } => ClientPartView::Image(image_parts(url@).0, image_parts(url@).1),
        ContentPart::ToolUse { id, name, input } => ClientPartView::ToolUse(id@, name@, input@),
        ContentPart::ToolResult { tool_use_id, content, is_error } => ClientPartView::ToolResult(
            tool_use_id@,
            content@,
            if is_error { Some(true) } else { None },
        ),
    }
}

pub open spec fn client_parts_view(v: Seq<ClientPart>) -> Seq<ClientPartView> {
    v.map_values(|p: ClientPart| p@)
}

pub open spec fn client_parts_of(ps: Seq<ContentPart>) -> Seq<ClientPartView> {
    ps.map_values(|p: ContentPart| client_part(p))
}

/// Conversion for the Anthropic API: the last system message becomes the
/// system prompt (its text parts joined by newlines); the others keep their
/// role and parts.
pub open spec fn client_converted(ms: Seq<Message>) -> (Option<Seq<char>>, Seq<(MessageRole, Seq<ClientPartView>)>)
    decreases ms.len(),
{
    if ms.len() == 0 {
        (None, Seq::empty())
    } else {
        let (sys, out) = client_converted(ms.drop_last());
        let m = ms.last();
        if m.role == MessageRole::System {
            (Some(join(part_texts(m.content@), "\n"@)), out)
        } else {
            (sys, out.push((m.role, client_parts_of(m.content@))))
        }
    }
}

pub open spec fn client_messages_view(v: Seq<ClientMessage>) -> Seq<(MessageRole, Seq<ClientPartView>)> {
    v.map_values(|m: ClientMessage| (m.role, client_parts_view(m.content@)))
}

fn client_part_exec(p: &ContentPart) -> (r: ClientPart)
    ensures
        r@ == client_part(*p),
{
    match p {
        ContentPart::Text { text } => ClientPart::Text(text.clone()),
        ContentPart::Image { url, .. } => {
            let (media_type, data) = split_image_url(url.as_str());
            ClientPart::Image { media_type, data }
        },
        ContentPart::ToolUse { id, name, input } => ClientPart::ToolUse { id: id.clone(), name: name.clone(), input: input.clone() },
        ContentPart::ToolResult { tool_use_id, content, is_error } => ClientPart::ToolResult {
            tool_use_id: tool_use_id.clone(),
            content: content.clone(),
            is_error: if *is_error { Some(true) } else { None },
        },
    }
}

/// Converts messages for the Anthropic API.
pub fn anthropic_messages(msgs: &Vec<Message>) -> (r: (Option<String>, Vec<ClientMessage>))
    ensures
        ({
            let (sys, out) = client_converted(msgs@);
            &&& match (r.0, sys) {
                (Some(a), Some(b)) => a@ == b,
                (None, None) => true,
                _ => false,
            }
            &&& client_messages_view(r.1@) == out
        }),
{
    let mut system: Option<String> = None;
    let mut out: Vec<ClientMessage> = Vec::new();
    let mut i: usize = 0;
    while i < msgs.len()
        invariant
            i <= msgs@.len(),
            match (system, client_converted(msgs@.take(i as int)).0) {
                (Some(a), Some(b)) => a@ == b,
                (None, None) => true,
                _ => false,
            },
            client_messages_view(out@) == client_converted(msgs@.take(i as int)).1,
        decreases msgs.len() - i,
    {
        proof {
            assert(msgs@.take(i + 1).drop_last() =~= msgs@.take(i as int));
            assert(msgs@.take(i + 1).last() == msgs@[i as int]);
        }
        let m = &msgs[i];
        if m.role == MessageRole::System {
            let texts = part_texts_exec(&m.content);
            system = Some(crate::text::join_strings(&texts, "\n"));
        } else {
            let mut parts: Vec<ClientPart> = Vec::new();
            let mut j: usize = 0;
            while j < m.content.len()
                invariant
                    j <= m.content@.len(),
                    parts@.len() == j,
                    client_parts_view(parts@) == client_parts_of(m.content@.take(j as int)),
                decreases m.content.len() - j,
            {
                let c = client_part_exec(&m.content[j]);
                let ghost pb = client_parts_view(parts@);
                parts.push(c);
                assert(client_parts_view(parts@) =~= pb.push(client_part(m.content@[j as int])));
                assert(m.content@.take(j + 1) =~= m.content@.take(j as int).push(m.content@[j as int]));
                j = j + 1;
                assert(client_parts_view(parts@) =~= client_parts_of(m.content@.take(j as int)));
            }
            assert(m.content@.take(j as int) =~= m.content@);
            let ghost before = client_messages_view(out@);
            out.push(ClientMessage { role: m.role, content: parts });
            assert(client_messages_view(out@) =~= before.push((m.role, client_parts_of(m.content@))));
        }
        i = i + 1;
    }
    assert(msgs@.take(i as int) =~= msgs@);
    (system, out)
}

/// The data payloads of a chunk of stream text: its lines, trimmed, that
/// start with `data: `, without that prefix.
pub open spec fn data_payloads(text: Seq<char>) -> Seq<Seq<char>>
    decreases text.len(),
{
    data_lines_of(split_on(text, '\n'))
}

pub open spec fn data_lines_of(lines: Seq<Seq<char>>) -> Seq<Seq<char>>
    decreases lines.len(),
{
    if lines.len() == 0 {
        Seq::empty()
    } else {
        let rest = data_lines_of(lines.drop_last());
        let l = trim_seq(lines.last());
        if starts_with_seq(l, "data: "@) {
            rest.push(l.skip(6))
        } else {
            rest
        }
    }
}

/// The `data: ` payloads of a chunk of stream text, in order.
pub fn data_payloads_of(text: &str) -> (r: Vec<String>)
    ensures
        views(r@) == data_payloads(text@),
{
    let cs = str_chars(text);
    let mut lines = crate::commands::chat::LineBuffer::new();
    assert(lines.pending@ + text@ =~= text@);
    let mut complete = lines.push(text);
    let ghost pieces = split_on(text@, '\n');
    proof {
        crate::paths::lemma_split_on_nonempty(text@, '\n');
    }
    let pend = str_chars(lines.pending.as_str());
    let last = trim_chars(&pend);
    let ghost cb = views(complete@);
    complete.push(string_from_chars(&last));
    assert(views(complete@) =~= cb.push(trim_seq(pieces.last())));
    assert(pieces =~= pieces.drop_last().push(pieces.last()));
    assert(views(complete@) =~= pieces.map_values(|p: Seq<char>| trim_seq(p)));
    assert forall|k: int| 0 <= k < complete@.len() implies complete@[k]@ == trim_seq(pieces[k]) by {
        assert(views(complete@)[k] == complete@[k]@);
    }
    let prefix = str_chars("data: ");
    proof {
        reveal_strlit("data: ");
    }
    let mut r: Vec<String> = Vec::new();
    let mut i: usize = 0;
    while i < complete.len()
        invariant
            i <= complete@.len(),
            prefix@ == "data: "@,
            prefix@.len() == 6,
            complete@.len() == pieces.len(),
            forall|k: int| 0 <= k < complete@.len() ==> complete@[k]@ == trim_seq(pieces[k]),
            views(r@) == data_lines_of(pieces.take(i as int)),
        decreases complete.len() - i,
    {
        proof {
            assert(pieces.take(i + 1).drop_last() =~= pieces.take(i as int));
            assert(pieces.take(i + 1).last() == pieces[i as int]);
        }
        let l = str_chars(complete[i].as_str());
        let ghost before = views(r@);
        if starts_with_chars(&l, &prefix) {
            let rest = skip_chars(&l, 6);
            r.push(string_from_chars(&rest));
            assert(views(r@) =~= before.push(trim_seq(pieces[i as int]).skip(6)));
        }
        i = i + 1;
    }
    assert(pieces.take(i as int) =~= pieces);
    r
}

/// Token counts in an Anthropic event.
#[derive(Debug, Clone, Copy)]
pub struct AnUsage {
    pub input_tokens: u64,
    pub output_tokens: u64,
    pub cache_creation_input_tokens: Option<u64>,
    pub cache_read_input_tokens: Option<u64>,
}

/// The usage reported for Anthropic counts (total: input plus output).
pub open spec fn usage_of(u: AnUsage) -> TokenUsage {
    TokenUsage {
        prompt_tokens: u.input_tokens,
        completion_tokens: u.output_tokens,
        total_tokens: (u.input_tokens + u.output_tokens) as u64,
        cache_read_tokens: match u.cache_read_input_tokens {
            Some(x) => x,
            None => 0,
        },
        cache_creation_tokens: match u.cache_creation_input_tokens {
            Some(x) => x,
            None => 0,
        },
    }
}

fn usage_exec(u: &AnUsage) -> (r: TokenUsage)
    requires
        u.input_tokens + u.output_tokens <= u64::MAX,
    ensures
        r == usage_of(*u),
{
    TokenUsage {
        prompt_tokens: u.input_tokens,
        completion_tokens: u.output_tokens,
        total_tokens: u.input_tokens + u.output_tokens,
        cache_read_tokens: match u.cache_read_input_tokens {
            Some(x) => x,
            None => 0,
        },
        cache_creation_tokens: match u.cache_creation_input_tokens {
            Some(x) => x,
            None => 0,
        },
    }
}

/// A started content block.
#[derive(Debug, Clone)]
pub enum ClientBlock {
    Text,
    Thinking,
    ToolUse { id: String, name: String },
}

/// A content block increment.
#[derive(Debug, Clone)]
pub enum ClientDelta {
    Text(String),
    Thinking(String),
    InputJson(String),
}

/// One parsed Anthropic stream event.
#[derive(Debug, Clone)]
pub struct AnClientEvent {
    pub event_type: String,
    /// `message.usage` of `message_start`.
    pub message_usage: Option<AnUsage>,
    pub index: Option<u64>,
    pub content_block: Option<ClientBlock>,
    pub delta: Option<ClientDelta>,
    pub usage: Option<AnUsage>,
}

/// The event's usage counts fit (their sum does not overflow).
pub open spec fn event_usage_fits(e: AnClientEvent) -> bool {
    &&& (e.message_usage matches Some(u) ==> u.input_tokens + u.output_tokens <= u64::MAX)
    &&& (e.usage matches Some(u) ==> u.input_tokens + u.output_tokens <= u64::MAX)
}

/// Tool calls seen so far, in the order they started: (id, name).
pub struct AnClientStream {
    pub calls: Vec<(String, String)>,
}

/// Records a started call: a known id gets the new name, a new id is added.
pub open spec fn upsert(calls: Seq<(String, String)>, id: String, name: String) -> Seq<(String, String)> {
    if exists|j: int| 0 <= j < calls.len() && calls[j].0@ == id@ {
        let j = choose|j: int| 0 <= j < calls.len() && calls[j].0@ == id@ && forall|k: int| 0 <= k < j ==> calls[k].0@ != id@;
        calls.update(j, (calls[j].0, name))
    } else {
        calls.push((id, name))
    }
}

/// The item an event yields, if any, and the calls after it.
pub open spec fn an_step(calls: Seq<(String, String)>, e: AnClientEvent) -> (Seq<(String, String)>, Option<StreamChunk>) {
    let t = e.event_type@;
    if t == "message_start"@ {
        match e.message_usage {
            Some(u) => (calls, Some(StreamChunk::Done { usage: usage_of(u) })),
            None => (calls, None),
        }
    } else if t == "content_block_start"@ {
        match e.content_block {
            Some(ClientBlock::ToolUse { id, name }) => (upsert(calls, id, name), Some(StreamChunk::ToolCallStart { id, name })),
            _ => (calls, None),
        }
    } else if t == "content_block_delta"@ {
        match e.delta {
            Some(ClientDelta::Text(s)) => (calls, Some(StreamChunk::TextDelta { text: s })),
            Some(ClientDelta::Thinking(s)) => (calls, Some(StreamChunk::ReasoningDelta { text: s })),
            Some(ClientDelta::InputJson(s)) => match e.index {
                Some(ix) => if ix < calls.len() {
                    (calls, Some(StreamChunk::ToolCallArgsDelta { id: calls[ix as int].0, args_json: s }))
                } else {
                    (calls, None)
                },
                None => (calls, None),
            },
            None => (calls, None),
        }
    } else if t == "content_block_stop"@ {
        match e.index {
            Some(ix) => if ix < calls.len() {
                (calls, Some(StreamChunk::ToolCallComplete { id: calls[ix as int].0 }))
            } else {
                (calls, None)
            },
            None => (calls, None),
        }
    } else if t == "message_delta"@ {
        match e.usage {
            Some(u) => (calls, Some(StreamChunk::Done { usage: usage_of(u) })),
            None => (calls, None),
        }
    } else {
        (calls, None)
    }
}

/// Reading the payloads of one chunk from position `i`: the first payload
/// that does not parse fails the chunk, the first event that yields an item
/// gives it; otherwise nothing (`None`).
pub open spec fn an_chunk(calls: Seq<(String, String)>, evs: Seq<Result<AnClientEvent, String>>, i: int) -> (Seq<(String, String)>, Result<Option<StreamChunk>, String>)
    decreases evs.len() - i,
{
    if i >= evs.len() || i < 0 {
        (calls, Ok(None))
    } else {
        match evs[i] {
            Err(e) => (calls, Err(e)),
            Ok(ev) => {
                let (c2, out) = an_step(calls, ev);
                match out {
                    Some(c) => (c2, Ok(Some(c))),
                    None => an_chunk(c2, evs, i + 1),
                }
            },
        }
    }
}

impl AnClientStream {
    pub fn new() -> (r: AnClientStream)
        ensures
            r.calls@.len() == 0,
    {
        AnClientStream { calls: Vec::new() }
    }

    /// The item one event yields, if any.
    pub fn on_event(&mut self, e: &AnClientEvent) -> (r: Option<StreamChunk>)
        requires
            event_usage_fits(*e),
        ensures
            (final(self).calls@, r) == an_step(old(self).calls@, *e),
    {
        let t = e.event_type.as_str();
        if crate::agent::str_equal(t, "message_start") {
            match &e.message_usage {
                Some(u) => Some(StreamChunk::Done { usage: usage_exec(u) }),
                None => None,
            }
        } else if crate::agent::str_equal(t, "content_block_start") {
            match &e.content_block {
                Some(ClientBlock::ToolUse { id, name }) => {
                    let mut j: usize = 0;
                    let mut found = false;
                    while j < self.calls.len() && !found
                        invariant
                            j <= self.calls@.len(),
                            self.calls@ == old(self).calls@,
                            !found ==> forall|k: int| 0 <= k < j ==> self.calls@[k].0@ != id@,
                            found ==> j < self.calls@.len() && self.calls@[j as int].0@ == id@ && forall|k: int| 0 <= k < j ==> self.calls@[k].0@ != id@,
                        decreases self.calls@.len() - j + if found { 0int } else { 1int },
                    {
                        if crate::agent::str_equal(self.calls[j].0.as_str(), id.as_str()) {
                            found = true;
                        } else {
                            j = j + 1;
                        }
                    }
                    if found {
                        proof {
                            let w = choose|w: int| 0 <= w < old(self).calls@.len() && old(self).calls@[w].0@ == id@ && forall|k: int| 0 <= k < w ==> old(self).calls@[k].0@ != id@;
                            assert(0 <= w < old(self).calls@.len() && old(self).calls@[w].0@ == id@ && forall|k: int| 0 <= k < w ==> old(self).calls@[k].0@ != id@);
                            assert(w == j as int);
                        }
                        let old_entry = self.calls.remove(j);
                        self.calls.insert(j, (old_entry.0, name.clone()));
                        assert(self.calls@ =~= upsert(old(self).calls@, *id, *name));
                    } else {
                        self.calls.push((id.clone(), name.clone()));
                        assert(self.calls@ =~= upsert(old(self).calls@, *id, *name));
                    }
                    Some(StreamChunk::ToolCallStart { id: id.clone(), name: name.clone() })
                },
                _ => None,
            }
        } else if crate::agent::str_equal(t, "content_block_delta") {
            match &e.delta {
                Some(ClientDelta::Text(s)) => Some(StreamChunk::TextDelta { text: s.clone() }),
                Some(ClientDelta::Thinking(s)) => Some(StreamChunk::ReasoningDelta { text: s.clone() }),
                Some(ClientDelta::InputJson(s)) => match e.index {
                    Some(ix) => {
                        if ix < self.calls.len() as u64 {
                            Some(StreamChunk::ToolCallArgsDelta { id: self.calls[ix as usize].0.clone(), args_json: s.clone() })
                        } else {
                            None
                        }
                    },
                    None => None,
                },
                None => None,
            }
        } else if crate::agent::str_equal(t, "content_block_stop") {
            match e.index {
                Some(ix) => {
                    if ix < self.calls.len() as u64 {
                        Some(StreamChunk::ToolCallComplete { id: self.calls[ix as usize].0.clone() })
                    } else {
                        None
                    }
                },
                None => None,
            }
        } else if crate::agent::str_equal(t, "message_delta") {
            match &e.usage {
                Some(u) => Some(StreamChunk::Done { usage: usage_exec(u) }),
                None => None,
            }
        } else {
            None
        }
    }

    /// Reads the parsed payloads of one received chunk: the item of the first
    /// event that yields one, an error for the first payload that does not
    /// parse, or an empty text item when nothing comes of it.
    pub fn on_chunk(&mut self, evs: &Vec<Result<AnClientEvent, String>>) -> (r: Result<StreamChunk, ModelError>)
        requires
            forall|k: int| 0 <= k < evs@.len() ==> (#[trigger] evs@[k] matches Ok(e) ==> event_usage_fits(e)),
        ensures
            ({
                let (calls, out) = an_chunk(old(self).calls@, evs@, 0);
                &&& final(self).calls@ == calls
                &&& match out {
                    Ok(Some(c)) => r == Ok::<StreamChunk, ModelError>(c),
                    Ok(None) => r matches Ok(StreamChunk::TextDelta { text }) && text@.len() == 0,
                    Err(e) => r matches Err(ModelError::InvalidResponse(m)) && m == e,
                }
            }),
    {
        let mut i: usize = 0;
        while i < evs.len()
            invariant
                i <= evs@.len(),
                forall|k: int| 0 <= k < evs@.len() ==> (#[trigger] evs@[k] matches Ok(e) ==> event_usage_fits(e)),
                an_chunk(old(self).calls@, evs@, 0) == an_chunk(self.calls@, evs@, i as int),
            decreases evs.len() - i,
        {
            match &evs[i] {
                Err(e) => {
                    return Err(ModelError::InvalidResponse(e.clone()));
                },
                Ok(ev) => {
                    let out = self.on_event(ev);
                    match out {
                        Some(c) => {
                            return Ok(c);
                        },
                        None => {},
                    }
                },
            }
            i = i + 1;
        }
        Ok(StreamChunk::TextDelta { text: String::new() })
    }
}

/// Content of an OpenAI request message.
#[derive(Debug, Clone)]
pub enum OaClientContent {
    Text(String),
    Parts(Vec<OaClientPart>),
}

/// A part of a multi-part OpenAI message.
#[derive(Debug, Clone)]
pub enum OaClientPart {
    Text(String),
    ImageUrl { url: String, detail: Option<String> },
}

/// A tool call in an OpenAI request; `arguments` is JSON text.
#[derive(Debug, Clone)]
pub struct OaClientCall {
    pub id: String,
    pub name: String,
    pub arguments: String,
}

/// A message of an OpenAI request.
#[derive(Debug, Clone)]
pub struct OaClientMessage {
    /// `system`, `user`, `assistant` or `tool`.
    pub role: String,
    pub content: OaClientContent,
    pub tool_calls: Option<Vec<OaClientCall>>,
    pub tool_call_id: Option<String>,
}

/// Name of a role in the OpenAI API.
pub open spec fn oa_role(r: MessageRole) -> Seq<char> {
    match r {
        MessageRole::System => "system"@,
        MessageRole::User => "user"@,
        MessageRole::Assistant => "assistant"@,
    }
}

/// Tool calls of an assistant message: its tool-use parts.
pub open spec fn tool_uses(ps: Seq<ContentPart>) -> Seq<(Seq<char>, Seq<char>, Seq<char>)>
    decreases ps.len(),
{
    if ps.len() == 0 {
        Seq::empty()
    } else {
        let rest = tool_uses(ps.drop_last());
        match ps.last() {
            ContentPart::ToolUse { id, name, input } => rest.push((id@, name@, input@)),
            _ => rest,
        }
    }
}

/// The message has a part other than text.
pub open spec fn has_non_text(ps: Seq<ContentPart>) -> bool {
    exists|i: int| 0 <= i < ps.len() && !(ps[i] is Text)
}

/// Abstract multi-part entry.
pub ghost enum OaPartView {
    Text(Seq<char>),
    ImageUrl(Seq<char>, Option<Seq<char>>),
}

impl View for OaClientPart {
    type V = OaPartView;

    open spec fn view(&self) -> OaPartView {
        match self {
            OaClientPart::Text(t) => OaPartView::Text(t@),
            OaClientPart::ImageUrl { url, detail } => OaPartView::ImageUrl(url@, crate::providers::types::opt_view(*detail)),
        }
    }
}

/// The multi-part entry of a message part (other parts become empty text).
pub open spec fn oa_part(p: ContentPart) -> OaPartView {
    match p {
        ContentPart::Text { text } => OaPartView::Text(text@),
        ContentPart::Image { url, detail } => OaPartView::ImageUrl(url@, crate::providers::types::opt_view(detail)),
        _ => OaPartView::Text(Seq::empty()),
    }
}

pub open spec fn oa_parts_of(ps: Seq<ContentPart>) -> Seq<OaPartView> {
    ps.map_values(|p: ContentPart| oa_part(p))
}

pub open spec fn oa_parts_view(v: Seq<OaClientPart>) -> Seq<OaPartView> {
    v.map_values(|p: OaClientPart| p@)
}

pub open spec fn oa_calls_view(v: Seq<OaClientCall>) -> Seq<(Seq<char>, Seq<char>, Seq<char>)> {
    v.map_values(|c: OaClientCall| (c.id@, c.name@, c.arguments@))
}

/// Converts a message for the OpenAI API: an assistant message carries its
/// text (parts joined by newlines) and its tool calls; a message opening with
/// a tool result becomes a `tool` message with that result; a message with
/// other parts than text is sent as parts; any other as its joined text.
pub fn openai_message(msg: &Message) -> (r: OaClientMessage)
    ensures
        if msg.role == MessageRole::Assistant {
            &&& r.role@ == "assistant"@
            &&& (r.content matches OaClientContent::Text(t) && t@ == join(part_texts(msg.content@), "\n"@))
            &&& (tool_uses(msg.content@).len() == 0 ==> r.tool_calls is None)
            &&& (tool_uses(msg.content@).len() > 0 ==> (r.tool_calls matches Some(cs) && oa_calls_view(cs@) == tool_uses(msg.content@)))
            &&& r.tool_call_id is None
        } else if msg.content@.len() > 0 && msg.content@[0] is ToolResult {
            &&& r.role@ == "tool"@
            &&& (msg.content@[0] matches ContentPart::ToolResult { tool_use_id, content, .. }
                && (r.content matches OaClientContent::Text(t) && t == content) && r.tool_call_id == Some(tool_use_id))
            &&& r.tool_calls is None
        } else {
            &&& r.role@ == oa_role(msg.role)
            &&& r.tool_calls is None
            &&& r.tool_call_id is None
            &&& (has_non_text(msg.content@) ==> (r.content matches OaClientContent::Parts(ps) && oa_parts_view(ps@) == oa_parts_of(msg.content@)))
            &&& (!has_non_text(msg.content@) ==> (r.content matches OaClientContent::Text(t) && t@ == join(part_texts(msg.content@), "\n"@)))
        },
{
    let ps = &msg.content;
    if msg.role == MessageRole::Assistant {
        let texts = part_texts_exec(ps);
        let mut calls: Vec<OaClientCall> = Vec::new();
        let mut i: usize = 0;
        while i < ps.len()
            invariant
                i <= ps@.len(),
                oa_calls_view(calls@) == tool_uses(ps@.take(i as int)),
            decreases ps.len() - i,
        {
            proof {
                assert(ps@.take(i + 1).drop_last() =~= ps@.take(i as int));
                assert(ps@.take(i + 1).last() == ps@[i as int]);
            }
            let ghost cb = oa_calls_view(calls@);
            match &ps[i] {
                ContentPart::ToolUse { id, name, input } => {
                    calls.push(OaClientCall { id: id.clone(), name: name.clone(), arguments: input.clone() });
                    assert(oa_calls_view(calls@) =~= cb.push((id@, name@, input@)));
                },
                _ => {},
            }
            i = i + 1;
        }
        assert(ps@.take(i as int) =~= ps@);
        let text = crate::text::join_strings(&texts, "\n");
        let tool_calls = if calls.len() == 0 { None } else { Some(calls) };
        return OaClientMessage { role: "assistant".to_owned(), content: OaClientContent::Text(text), tool_calls, tool_call_id: None };
    }
    if ps.len() > 0 {
        match &ps[0] {
            ContentPart::ToolResult { tool_use_id, content, .. } => {
                return OaClientMessage {
                    role: "tool".to_owned(),
                    content: OaClientContent::Text(content.clone()),
                    tool_calls: None,
                    tool_call_id: Some(tool_use_id.clone()),
                };
            },
            _ => {},
        }
    }
    let role = match msg.role {
        MessageRole::System => "system".to_owned(),
        MessageRole::User => "user".to_owned(),
        MessageRole::Assistant => "assistant".to_owned(),
    };
    let mut multipart = false;
    let mut parts: Vec<OaClientPart> = Vec::new();
    let mut i: usize = 0;
    while i < ps.len()
        invariant
            i <= ps@.len(),
            parts@.len() == i,
            multipart == has_non_text(ps@.take(i as int)),
            oa_parts_view(parts@) == oa_parts_of(ps@.take(i as int)),
        decreases ps.len() - i,
    {
        let ghost pb = oa_parts_view(parts@);
        match &ps[i] {
            ContentPart::Text { text } => parts.push(OaClientPart::Text(text.clone())),
            ContentPart::Image { url, detail } => {
                multipart = true;
                let d = match detail {
                    Some(x) => Some(x.clone()),
                    None => None,
                };
                parts.push(OaClientPart::ImageUrl { url: url.clone(), detail: d });
            },
            _ => {
                multipart = true;
                parts.push(OaClientPart::Text(String::new()));
            },
        }
        proof {
            assert(oa_parts_view(parts@) =~= pb.push(oa_part(ps@[i as int])));
            assert(ps@.take(i + 1) =~= ps@.take(i as int).push(ps@[i as int]));
            if multipart {
                assert(has_non_text(ps@.take(i + 1))) by {
                    if has_non_text(ps@.take(i as int)) {
                        let w = choose|w: int| 0 <= w < ps@.take(i as int).len() && !(ps@.take(i as int)[w] is Text);
                        assert(!(ps@.take(i + 1)[w] is Text));
                    } else {
                        assert(!(ps@.take(i + 1)[i as int] is Text));
                    }
                }
            } else {
                assert(!has_non_text(ps@.take(i + 1))) by {
                    assert forall|w: int| 0 <= w < ps@.take(i + 1).len() implies (#[trigger] ps@.take(i + 1)[w] is Text) by {
                        if w < i {
                            assert(ps@.take(i + 1)[w] == ps@.take(i as int)[w]);
                        }
                    }
                }
            }
        }
        i = i + 1;
    }
    assert(ps@.take(i as int) =~= ps@);
    if multipart {
        OaClientMessage { role, content: OaClientContent::Parts(parts), tool_calls: None, tool_call_id: None }
    } else {
        let texts = part_texts_exec(ps);
        OaClientMessage { role, content: OaClientContent::Text(crate::text::join_strings(&texts, "\n")), tool_calls: None, tool_call_id: None }
    }
}

/// Token counts in an OpenAI event.
#[derive(Debug, Clone, Copy)]
pub struct OaUsage {
    pub prompt_tokens: u64,
    pub completion_tokens: u64,
    pub total_tokens: u64,
}

/// A function fragment of a streamed tool call.
#[derive(Debug, Clone)]
pub struct OaFunctionDelta {
    pub name: Option<String>,
    pub arguments: Option<String>,
}

/// A streamed tool-call fragment.
#[derive(Debug, Clone)]
pub struct OaCallDelta {
    pub index: u64,
    pub id: Option<String>,
    pub function: Option<OaFunctionDelta>,
}

/// One streamed choice.
#[derive(Debug, Clone)]
pub struct OaClientChoice {
    pub content: Option<String>,
    pub tool_calls: Option<Vec<OaCallDelta>>,
    pub finish_reason: Option<String>,
}

/// One parsed OpenAI stream event.
#[derive(Debug, Clone)]
pub struct OaClientEvent {
    pub choices: Vec<OaClientChoice>,
    pub usage: Option<OaUsage>,
}

/// A tool call being assembled: its index, id and name once known, and the
/// arguments received.
#[derive(Debug, Clone)]
pub struct OaPending {
    pub index: u64,
    pub id: Option<String>,
    pub name: Option<String>,
    pub arguments: String,
}

/// Tool calls being assembled, in the order their index first appeared.
pub struct OaClientStream {
    pub pending: Vec<OaPending>,
}

/// Abstract call being assembled.
pub ghost struct PendingView {
    pub index: u64,
    pub id: Option<Seq<char>>,
    pub name: Option<Seq<char>>,
    pub arguments: Seq<char>,
}

impl View for OaPending {
    type V = PendingView;

    open spec fn view(&self) -> PendingView {
        PendingView {
            index: self.index,
            id: crate::providers::types::opt_view(self.id),
            name: crate::providers::types::opt_view(self.name),
            arguments: self.arguments@,
        }
    }
}

pub open spec fn pendings_view(v: Seq<OaPending>) -> Seq<PendingView> {
    v.map_values(|p: OaPending| p@)
}

/// Abstract stream item.
pub ghost enum ItemView {
    TextDelta(Seq<char>),
    ReasoningDelta(Seq<char>),
    ToolCallStart(Seq<char>, Seq<char>),
    ToolCallArgsDelta(Seq<char>, Seq<char>),
    ToolCallComplete(Seq<char>),
    Done(TokenUsage),
}

impl View for StreamChunk {
    type V = ItemView;

    open spec fn view(&self) -> ItemView {
        match self {
            StreamChunk::TextDelta { text } => ItemView::TextDelta(text@),
            StreamChunk::ReasoningDelta { text } => ItemView::ReasoningDelta(text@),
            StreamChunk::ToolCallStart { id, name } => ItemView::ToolCallStart(id@, name@),
            StreamChunk::ToolCallArgsDelta { id, args_json } => ItemView::ToolCallArgsDelta(id@, args_json@),
            StreamChunk::ToolCallComplete { id } => ItemView::ToolCallComplete(id@),
            StreamChunk::Done { usage } => ItemView::Done(*usage),
        }
    }
}

pub open spec fn items_view(v: Seq<StreamChunk>) -> Seq<ItemView> {
    v.map_values(|c: StreamChunk| c@)
}

/// Position of the call with this index.
pub open spec fn slot(ps: Seq<PendingView>, index: u64) -> Option<int> {
    if exists|j: int| 0 <= j < ps.len() && ps[j].index == index {
        Some(choose|j: int| 0 <= j < ps.len() && ps[j].index == index && forall|k: int| 0 <= k < j ==> ps[k].index != index)
    } else {
        None
    }
}

/// One fragment: it updates (or opens) the call of its index; when a name
/// arrives and the call has both id and name, its start is announced;
/// arguments accumulate and, for a call with an id, are passed on.
pub open spec fn fragment_step(ps: Seq<PendingView>, d: OaCallDelta) -> (Seq<PendingView>, Seq<ItemView>) {
    let base = match slot(ps, d.index) {
        Some(j) => ps,
        None => ps.push(PendingView { index: d.index, id: None, name: None, arguments: Seq::empty() }),
    };
    let j = match slot(ps, d.index) {
        Some(j) => j,
        None => ps.len() as int,
    };
    let e0 = base[j];
    let e1 = match d.id {
        Some(id) => PendingView { id: Some(id@), ..e0 },
        None => e0,
    };
    match d.function {
        None => (base.update(j, e1), Seq::empty()),
        Some(f) => {
            let e2 = match f.name {
                Some(n) => PendingView { name: Some(n@), ..e1 },
                None => e1,
            };
            let starts = match (f.name, e2.id, e2.name) {
                (Some(_), Some(id), Some(n)) => seq![ItemView::ToolCallStart(id, n)],
                _ => Seq::empty(),
            };
            match f.arguments {
                Some(a) => {
                    let e3 = PendingView { arguments: e2.arguments + a@, ..e2 };
                    let args = match e3.id {
                        Some(id) => seq![ItemView::ToolCallArgsDelta(id, a@)],
                        None => Seq::empty(),
                    };
                    (base.update(j, e3), starts + args)
                },
                None => (base.update(j, e2), starts),
            }
        },
    }
}

/// Fragments in order.
pub open spec fn fragments_step(ps: Seq<PendingView>, ds: Seq<OaCallDelta>) -> (Seq<PendingView>, Seq<ItemView>)
    decreases ds.len(),
{
    if ds.len() == 0 {
        (ps, Seq::empty())
    } else {
        let (p1, o1) = fragments_step(ps, ds.drop_last());
        let (p2, o2) = fragment_step(p1, ds.last());
        (p2, o1 + o2)
    }
}

/// Completion of every call that has an id, in order.
pub open spec fn completions(ps: Seq<PendingView>) -> Seq<ItemView>
    decreases ps.len(),
{
    if ps.len() == 0 {
        Seq::empty()
    } else {
        completions(ps.drop_last()) + match ps.last().id {
            Some(id) => seq![ItemView::ToolCallComplete(id)],
            None => Seq::empty(),
        }
    }
}

/// One choice: its non-empty text, its call fragments, and the completion of
/// all calls when it has a finish reason.
pub open spec fn choice_step(ps: Seq<PendingView>, c: OaClientChoice) -> (Seq<PendingView>, Seq<ItemView>) {
    let text = match c.content {
        Some(t) => if t@.len() > 0 { seq![ItemView::TextDelta(t@)] } else { Seq::empty() },
        None => Seq::empty(),
    };
    let (p1, o1) = match c.tool_calls {
        Some(ds) => fragments_step(ps, ds@),
        None => (ps, Seq::empty()),
    };
    let fin = match c.finish_reason {
        Some(_) => completions(p1),
        None => Seq::empty(),
    };
    (p1, text + o1 + fin)
}

pub open spec fn choices_step(ps: Seq<PendingView>, cs: Seq<OaClientChoice>) -> (Seq<PendingView>, Seq<ItemView>)
    decreases cs.len(),
{
    if cs.len() == 0 {
        (ps, Seq::empty())
    } else {
        let (p1, o1) = choices_step(ps, cs.drop_last());
        let (p2, o2) = choice_step(p1, cs.last());
        (p2, o1 + o2)
    }
}

/// One event: a usage report yields only the usage; otherwise its choices.
pub open spec fn event_step(ps: Seq<PendingView>, e: OaClientEvent) -> (Seq<PendingView>, Seq<ItemView>) {
    match e.usage {
        Some(u) => (ps, seq![ItemView::Done(TokenUsage {
            prompt_tokens: u.prompt_tokens,
            completion_tokens: u.completion_tokens,
            total_tokens: u.total_tokens,
            cache_read_tokens: 0,
            cache_creation_tokens: 0,
        })]),
        None => choices_step(ps, e.choices@),
    }
}

/// Events of one chunk from position `i`, with the items gathered so far;
/// a payload that does not parse stops the chunk with its error.
pub open spec fn oa_chunk(ps: Seq<PendingView>, evs: Seq<Result<OaClientEvent, String>>, i: int, acc: Seq<ItemView>) -> (Seq<PendingView>, Result<Seq<ItemView>, Seq<char>>)
    decreases evs.len() - i,
{
    if i >= evs.len() || i < 0 {
        (ps, Ok(acc))
    } else {
        match evs[i] {
            Err(e) => (ps, Err(e@)),
            Ok(ev) => {
                let (p2, o) = event_step(ps, ev);
                oa_chunk(p2, evs, i + 1, acc + o)
            },
        }
    }
}

fn find_slot(ps: &Vec<OaPending>, index: u64) -> (r: Option<usize>)
    ensures
        match r {
            Some(j) => slot(pendings_view(ps@), index) == Some(j as int) && j < ps@.len(),
            None => slot(pendings_view(ps@), index) is None,
        },
{
    let ghost pv = pendings_view(ps@);
    let mut j: usize = 0;
    while j < ps.len()
        invariant
            j <= ps@.len(),
            pv == pendings_view(ps@),
            forall|k: int| 0 <= k < j ==> pv[k].index != index,
        decreases ps.len() - j,
    {
        assert(pv[j as int] == ps@[j as int]@);
        if ps[j].index == index {
            proof {
                let w = choose|w: int| 0 <= w < pv.len() && pv[w].index == index && forall|k: int| 0 <= k < w ==> pv[k].index != index;
                assert(0 <= w < pv.len() && pv[w].index == index && forall|k: int| 0 <= k < w ==> pv[k].index != index);
                assert(w == j as int);
            }
            return Some(j);
        }
        j = j + 1;
    }
    None
}

fn clone_opt_string(o: &Option<String>) -> (r: Option<String>)
    ensures
        r == *o,
{
    match o {
        Some(s) => Some(s.clone()),
        None => None,
    }
}

impl OaClientStream {
    pub fn new() -> (r: OaClientStream)
        ensures
            r.pending@.len() == 0,
    {
        OaClientStream { pending: Vec::new() }
    }

    #[verifier::rlimit(60)]
    fn on_fragment(&mut self, d: &OaCallDelta, out: &mut Vec<StreamChunk>)
        ensures
            ({
                let (p, o) = fragment_step(pendings_view(old(self).pending@), *d);
                pendings_view(final(self).pending@) == p && items_view(final(out)@) == items_view(old(out)@) + o
            }),
    {
        let ghost pv0 = pendings_view(self.pending@);
        let j = match find_slot(&self.pending, d.index) {
            Some(j) => j,
            None => {
                self.pending.push(OaPending { index: d.index, id: None, name: None, arguments: String::new() });
                assert(pendings_view(self.pending@) =~= pv0.push(PendingView { index: d.index, id: None, name: None, arguments: Seq::empty() }));
                self.pending.len() - 1
            },
        };
        let ghost base = pendings_view(self.pending@);
        assert(base == match slot(pv0, d.index) {
            Some(_) => pv0,
            None => pv0.push(PendingView { index: d.index, id: None, name: None, arguments: Seq::empty() }),
        });
        assert(j as int == match slot(pv0, d.index) {
            Some(jj) => jj,
            None => pv0.len() as int,
        });
        assert(base[j as int] == self.pending@[j as int]@);
        let mut e = self.pending.remove(j);
        let ghost rest = self.pending@;
        match &d.id {
            Some(id) => e.id = Some(id.clone()),
            None => {},
        }
        let ghost ob = items_view(out@);
        match &d.function {
            None => {},
            Some(f) => {
                match &f.name {
                    Some(n) => {
                        e.name = Some(n.clone());
                        match (&e.id, &e.name) {
                            (Some(id), Some(nm)) => {
                                out.push(StreamChunk::ToolCallStart { id: id.clone(), name: nm.clone() });
                            },
                            _ => {},
                        }
                    },
                    None => {},
                }
                match &f.arguments {
                    Some(a) => {
                        crate::text::push_str(&mut e.arguments, a.as_str());
                        match &e.id {
                            Some(id) => {
                                out.push(StreamChunk::ToolCallArgsDelta { id: id.clone(), args_json: a.clone() });
                            },
                            None => {},
                        }
                    },
                    None => {},
                }
            },
        }
        let ghost ev = e@;
        self.pending.insert(j, e);
        assert(pendings_view(self.pending@) =~= base.update(j as int, ev));
        let ghost (p, o) = fragment_step(pv0, *d);
        assert(pendings_view(self.pending@) =~= p);
        assert(items_view(out@) =~= ob + o);
    }

    fn on_choice(&mut self, c: &OaClientChoice, out: &mut Vec<StreamChunk>)
        ensures
            ({
                let (p, o) = choice_step(pendings_view(old(self).pending@), *c);
                pendings_view(final(self).pending@) == p && items_view(final(out)@) == items_view(old(out)@) + o
            }),
    {
        let ghost ob = items_view(out@);
        match &c.content {
            Some(t) => {
                if t.as_str().unicode_len() > 0 {
                    out.push(StreamChunk::TextDelta { text: t.clone() });
                }
            },
            None => {},
        }
        let ghost ot = items_view(out@);
        let ghost p0 = pendings_view(self.pending@);
        match &c.tool_calls {
            Some(ds) => {
                let mut i: usize = 0;
                while i < ds.len()
                    invariant
                        i <= ds@.len(),
                        ({
                            let (p, o) = fragments_step(p0, ds@.take(i as int));
                            pendings_view(self.pending@) == p && items_view(out@) == ot + o
                        }),
                    decreases ds.len() - i,
                {
                    proof {
                        assert(ds@.take(i + 1).drop_last() =~= ds@.take(i as int));
                        assert(ds@.take(i + 1).last() == ds@[i as int]);
                    }
                    self.on_fragment(&ds[i], out);
                    i = i + 1;
                }
                assert(ds@.take(i as int) =~= ds@);
            },
            None => {},
        }
        let ghost of = items_view(out@);
        match &c.finish_reason {
            Some(_) => {
                let ghost pv = pendings_view(self.pending@);
                let mut k: usize = 0;
                while k < self.pending.len()
                    invariant
                        k <= self.pending@.len(),
                        pv == pendings_view(self.pending@),
                        items_view(out@) == of + completions(pv.take(k as int)),
                    decreases self.pending.len() - k,
                {
                    proof {
                        assert(pv.take(k + 1).drop_last() =~= pv.take(k as int));
                        assert(pv.take(k + 1).last() == pv[k as int]);
                    }
                    let ghost before = items_view(out@);
                    match &self.pending[k].id {
                        Some(id) => {
                            out.push(StreamChunk::ToolCallComplete { id: id.clone() });
                        },
                        None => {},
                    }
                    assert(items_view(out@) =~= before + match pv[k as int].id {
                        Some(id) => seq![ItemView::ToolCallComplete(id)],
                        None => Seq::empty(),
                    });
                    k = k + 1;
                }
                assert(pv.take(k as int) =~= pv);
            },
            None => {},
        }
        let ghost (p, o) = choice_step(pendings_view(old(self).pending@), *c);
        assert(items_view(out@) =~= ob + o);
    }

    fn on_event(&mut self, e: &OaClientEvent, out: &mut Vec<StreamChunk>)
        ensures
            ({
                let (p, o) = event_step(pendings_view(old(self).pending@), *e);
                pendings_view(final(self).pending@) == p && items_view(final(out)@) == items_view(old(out)@) + o
            }),
    {
        match &e.usage {
            Some(u) => {
                let ghost ob = items_view(out@);
                out.push(StreamChunk::Done { usage: TokenUsage {
                    prompt_tokens: u.prompt_tokens,
                    completion_tokens: u.completion_tokens,
                    total_tokens: u.total_tokens,
                    cache_read_tokens: 0,
                    cache_creation_tokens: 0,
                } });
                assert(items_view(out@) =~= ob + event_step(pendings_view(old(self).pending@), *e).1);
            },
            None => {
                let ghost ob = items_view(out@);
                let ghost p0 = pendings_view(self.pending@);
                let mut i: usize = 0;
                while i < e.choices.len()
                    invariant
                        i <= e.choices@.len(),
                        ({
                            let (p, o) = choices_step(p0, e.choices@.take(i as int));
                            pendings_view(self.pending@) == p && items_view(out@) == ob + o
                        }),
                    decreases e.choices.len() - i,
                {
                    proof {
                        assert(e.choices@.take(i + 1).drop_last() =~= e.choices@.take(i as int));
                        assert(e.choices@.take(i + 1).last() == e.choices@[i as int]);
                    }
                    self.on_choice(&e.choices[i], out);
                    i = i + 1;
                }
                assert(e.choices@.take(i as int) =~= e.choices@);
            },
        }
    }

    /// Reads the parsed payloads of one received chunk: all items they
    /// yield are gathered and the first is returned (an empty text item when
    /// there is none); the first payload that does not parse fails the chunk.
    pub fn on_chunk(&mut self, evs: &Vec<Result<OaClientEvent, String>>) -> (r: Result<StreamChunk, ModelError>)
        ensures
            ({
                let (p, out) = oa_chunk(pendings_view(old(self).pending@), evs@, 0, Seq::empty());
                &&& pendings_view(final(self).pending@) == p
                &&& match out {
                    Ok(items) => if items.len() > 0 {
                        r matches Ok(c) && c@ == items[0]
                    } else {
                        r matches Ok(StreamChunk::TextDelta { text }) && text@.len() == 0
                    },
                    Err(e) => r matches Err(ModelError::InvalidResponse(m)) && m@ == e,
                }
            }),
    {
        let mut out: Vec<StreamChunk> = Vec::new();
        assert(items_view(out@) =~= Seq::<ItemView>::empty());
        let mut i: usize = 0;
        while i < evs.len()
            invariant
                i <= evs@.len(),
                oa_chunk(pendings_view(old(self).pending@), evs@, 0, Seq::empty()) == oa_chunk(
                    pendings_view(self.pending@),
                    evs@,
                    i as int,
                    items_view(out@),
                ),
            decreases evs.len() - i,
        {
            match &evs[i] {
                Err(e) => {
                    return Err(ModelError::InvalidResponse(e.clone()));
                },
                Ok(ev) => {
                    self.on_event(ev, &mut out);
                },
            }
            i = i + 1;
        }
        if out.len() == 0 {
            Ok(StreamChunk::TextDelta { text: String::new() })
        } else {
            Ok(out.remove(0))
        }
    }
}

/// The data payloads of a chunk of OpenAI stream text, without `[DONE]`.
pub fn openai_payloads(text: &str) -> (r: Vec<String>)
    ensures
        views(r@) == data_payloads(text@).filter(|d: Seq<char>| d != "[DONE]"@),
{
    let all = data_payloads_of(text);
    let ghost av = views(all@);
    let mut r: Vec<String> = Vec::new();
    let mut i: usize = 0;
    while i < all.len()
        invariant
            i <= all@.len(),
            av == views(all@),
            views(r@) == av.take(i as int).filter(|d: Seq<char>| d != "[DONE]"@),
        decreases all.len() - i,
    {
        proof {
            assert(av.take(i + 1).drop_last() =~= av.take(i as int));
            reveal(Seq::filter);
        }
        let ghost before = views(r@);
        if !crate::agent::str_equal(all[i].as_str(), "[DONE]") {
            r.push(all[i].clone());
            assert(views(r@) =~= before.push(av[i as int]));
        }
        i = i + 1;
    }
    assert(av.take(i as int) =~= av);
    r
}

} // verus!
