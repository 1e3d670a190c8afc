//! Streamed chat requests of the front end: which provider serves them, the
//! events that end a failed stream, the demonstration reply given without
//! credentials, and the batches handed to a polling client.
use vstd::prelude::*;
use crate::agent::AgentConfig;
use crate::providers::types::{chunks_view, ChunkView, StreamChunk};
use crate::services::{ProviderType, StreamResponse};
use crate::text::{append_str, str_chars, string_from_chars};

verus! {

/// The provider named by a request's provider type (`openai-compat` when it
/// names none); `None` for an unknown name.
pub open spec fn chat_provider_of(provider_type: Option<Seq<char>>) -> Option<ProviderType> {
    match provider_type {
        None => Some(ProviderType::OpenAICompat),
        Some(t) => if t == "openai-compat"@ {
            Some(ProviderType::OpenAICompat)
        } else if t == "anthropic"@ {
            Some(ProviderType::Anthropic)
        } else {
            None
        },
    }
}

/// The provider that serves a streamed request.
pub fn chat_provider(provider_type: &Option<String>) -> (r: Option<ProviderType>)
    ensures
        r == chat_provider_of(crate::providers::types::opt_view(*provider_type)),
{
    proof {
        reveal_strlit("openai-compat");
        reveal_strlit("anthropic");
        assert("openai-compat"@[0] != "anthropic"@[0]);
    }
    match provider_type {
        None => Some(ProviderType::OpenAICompat),
        Some(t) => {
            if crate::agent::str_equal(t.as_str(), "openai-compat") {
                Some(ProviderType::OpenAICompat)
            } else if crate::agent::str_equal(t.as_str(), "anthropic") {
                Some(ProviderType::Anthropic)
            } else {
                None
            }
        },
    }
}

/// The message of a streamed request naming an unknown provider type.
pub fn unsupported_provider_text(provider_type: &str) -> (r: String)
    ensures
        r@ == "不支持的 Provider 类型: "@ + provider_type@,
{
    let mut out: Vec<char> = Vec::new();
    append_str(&mut out, "不支持的 Provider 类型: ");
    append_str(&mut out, provider_type);
    string_from_chars(&out)
}

/// The message of a polled request naming an unknown provider.
pub fn unsupported_adapter_text(provider_type: &str) -> (r: String)
    ensures
        r@ == "不支持的 Provider: "@ + provider_type@,
{
    let mut out: Vec<char> = Vec::new();
    append_str(&mut out, "不支持的 Provider: ");
    append_str(&mut out, provider_type);
    string_from_chars(&out)
}

/// The message of a provider that failed a streamed request.
pub fn provider_failure_text(e: &str) -> (r: String)
    ensures
        r@ == "Provider 错误: "@ + e@,
{
    let mut out: Vec<char> = Vec::new();
    append_str(&mut out, "Provider 错误: ");
    append_str(&mut out, e);
    string_from_chars(&out)
}

/// The events that end a failed stream: the error, then the end marked
/// `error`.
pub fn failure_events(message: String) -> (r: Vec<StreamChunk>)
    ensures
        chunks_view(r@) == seq![ChunkView::Error(message@), ChunkView::Done(Some("error"@))],
{
    let ghost m = message@;
    let v = vec![StreamChunk::Error { message }, StreamChunk::Done { finish_reason: Some("error".to_owned()) }];
    assert(chunks_view(v@) =~= seq![ChunkView::Error(m), ChunkView::Done(Some("error"@))]);
    v
}

/// The event that ends a stream that succeeded.
pub fn stop_event() -> (c: StreamChunk)
    ensures
        c@ == ChunkView::Done(Some("stop"@)),
{
    StreamChunk::Done { finish_reason: Some("stop".to_owned()) }
}

/// The reply given when no credentials are configured.
pub open spec fn demo_text(provider_id: Seq<char>, model: Seq<char>) -> Seq<char> {
    "你好！我是 CrossChat 助手。\n\n收到你的消息，当前 Provider: **"@ + provider_id + "**, 模型: **"@ + model
        + "**。\n\n这是一个演示回复。请在设置中配置 API Key 以接入真实模型。"@
}

/// The events of the demonstration reply: one text increment per character,
/// then the end.
pub open spec fn demo_events(text: Seq<char>) -> Seq<ChunkView> {
    Seq::new(text.len(), |i: int| ChunkView::TextDelta(seq![text[i]])).push(ChunkView::Done(Some("stop"@)))
}

/// The demonstration reply, streamed character by character.
pub fn demo_chunks(provider_id: &str, model: &str) -> (r: Vec<StreamChunk>)
    ensures
        chunks_view(r@) == demo_events(demo_text(provider_id@, model@)),
{
    let mut text: Vec<char> = Vec::new();
    append_str(&mut text, "你好！我是 CrossChat 助手。\n\n收到你的消息，当前 Provider: **");
    append_str(&mut text, provider_id);
    append_str(&mut text, "**, 模型: **");
    append_str(&mut text, model);
    append_str(&mut text, "**。\n\n这是一个演示回复。请在设置中配置 API Key 以接入真实模型。");
    let ghost tv = text@;
    let mut out: Vec<StreamChunk> = Vec::new();
    let mut i: usize = 0;
    while i < text.len()
        invariant
            i <= text.len(),
            tv == text@,
            chunks_view(out@) == Seq::new(i as nat, |k: int| ChunkView::TextDelta(seq![tv[k]])),
        decreases text.len() - i,
    {
        let mut one: Vec<char> = Vec::new();
        one.push(text[i]);
        let piece = string_from_chars(&one);
        let ghost before = out@;
        out.push(StreamChunk::TextDelta { delta: piece });
        proof {
            assert(one@ =~= seq![tv[i as int]]);
            assert(chunks_view(out@) =~= chunks_view(before).push(ChunkView::TextDelta(seq![tv[i as int]])));
        }
        i = i + 1;
        assert(chunks_view(out@) =~= Seq::new(i as nat, |k: int| ChunkView::TextDelta(seq![tv[k]])));
    }
    let ghost body = out@;
    out.push(stop_event());
    assert(chunks_view(out@) =~= chunks_view(body).push(ChunkView::Done(Some("stop"@))));
    out
}

/// A polled batch takes a received event: it joins the batch, and the batch
/// is complete when the event ends the stream.
pub fn poll_take(batch: &mut StreamResponse, chunk: StreamChunk)
    requires
        !old(batch).done,
    ensures
        chunks_view(final(batch).chunks@) == chunks_view(old(batch).chunks@).push(chunk@),
        final(batch).done == (chunk@ is Done),
{
    let ends = match &chunk {
        StreamChunk::Done { .. } => true,
        _ => false,
    };
    let ghost before = batch.chunks@;
    let ghost cv = chunk@;
    batch.chunks.push(chunk);
    batch.done = ends;
    assert(chunks_view(batch.chunks@) =~= chunks_view(before).push(cv));
}

/// The stream's producer is gone: an error is reported when the batch has
/// nothing else, and the stream ends marked `error`.
pub fn poll_disconnected(batch: &mut StreamResponse)
    ensures
        chunks_view(final(batch).chunks@) == chunks_view(old(batch).chunks@) + (if old(batch).chunks@.len() == 0 {
            seq![ChunkView::Error("连接中断：后台任务异常终止"@)]
        } else {
            Seq::empty()
        }) + seq![ChunkView::Done(Some("error"@))],
        final(batch).done,
{
    let ghost before = batch.chunks@;
    if batch.chunks.len() == 0 {
        batch.chunks.push(StreamChunk::Error { message: "连接中断：后台任务异常终止".to_owned() });
    }
    let ghost mid = batch.chunks@;
    batch.chunks.push(StreamChunk::Done { finish_reason: Some("error".to_owned()) });
    batch.done = true;
    assert(chunks_view(batch.chunks@) =~= chunks_view(mid).push(ChunkView::Done(Some("error"@))));
    assert(chunks_view(before) + (if before.len() == 0 {
        seq![ChunkView::Error("连接中断：后台任务异常终止"@)]
    } else {
        Seq::empty()
    }) =~= chunks_view(mid));
}

/// The settings of an agent conversation in a workspace: fifteen
/// iterations, self-healing and task decomposition on.
pub fn chat_agent_config(work_dir: String) -> (r: AgentConfig)
    ensures
        r.max_iterations == 15,
        r.work_dir == work_dir,
        r.enable_self_healing,
        r.enable_task_decomposition,
{
    AgentConfig { max_iterations: 15, work_dir, enable_self_healing: true, enable_task_decomposition: true }
}

} // verus!
