//! The decisions of one agent run. The caller drives the loop: it asks the
//! model, runs the tools and hands each outcome to these steps, which update
//! the agent and say what to stream.
use vstd::prelude::*;
use crate::agent::compactor::{estimate, total_chars, ContextCompactor};
use crate::agent::{
    actions_view, clone_steps, route_of, allowed_view, steps_view, ActionView, Agent, AgentAction,
    AgentResult, AgentStep, StepView, ToolRoute,
};
use crate::json::{json_string_array, string_array};
use crate::memory::Memory;
use crate::providers::types::{
    calls_view, chunks_view, msgs_view, opt_view, BlockView, CallView, ChunkView, ContentBlock,
    MessageRole, MsgView, StreamChunk, ToolCall, UnifiedMessage,
};
use crate::text::{append_chars, append_str, decimal, decimal_chars, string_from_chars, str_chars};
use crate::tools::ToolResult;

verus! {

/// The first text block among `bs`.
pub open spec fn first_text_block(bs: Seq<BlockView>) -> Option<Seq<char>>
    decreases bs.len(),
{
    if bs.len() == 0 {
        None
    } else {
        match bs[0] {
            BlockView::Text(t) => Some(t),
            BlockView::Image(_) => first_text_block(bs.drop_first()),
        }
    }
}

/// The request of a run: the first text block of the first user message, or
/// the empty text.
pub open spec fn first_user_text(ms: Seq<MsgView>) -> Seq<char>
    decreases ms.len(),
{
    if ms.len() == 0 {
        Seq::empty()
    } else if ms[0].role == MessageRole::User {
        match first_text_block(ms[0].content) {
            Some(t) => t,
            None => Seq::empty(),
        }
    } else {
        first_user_text(ms.drop_first())
    }
}

/// A message of one role holding one text block.
pub open spec fn text_msg(role: MessageRole, t: Seq<char>) -> MsgView {
    MsgView {
        role,
        content: seq![BlockView::Text(t)],
        tool_calls: None,
        tool_call_id: None,
        reasoning_content: None,
    }
}

/// One remembered solution as shown to the model.
pub open spec fn memory_entry(m: Memory) -> Seq<char> {
    "任务: "@ + m.task@ + "\n解决方案: "@ + m.solution@ + "\n使用工具: "@ + m.tools_used@ + "\n"@
}

/// Remembered solutions, separated by `\n---\n`.
pub open spec fn memory_entries(ms: Seq<Memory>) -> Seq<char>
    decreases ms.len(),
{
    if ms.len() == 0 {
        Seq::empty()
    } else if ms.len() == 1 {
        memory_entry(ms[0])
    } else {
        memory_entries(ms.drop_last()) + "\n---\n"@ + memory_entry(ms.last())
    }
}

/// The message that hands remembered solutions to the model.
pub open spec fn memory_context(ms: Seq<Memory>) -> Seq<char> {
    "[记忆检索 — 找到 "@ + decimal(ms.len()) + " 条相似任务的解决方案]\n\n"@ + memory_entries(ms)
}

/// Status line sent when an iteration starts (iterations count from one).
pub open spec fn thinking_status(iteration: nat) -> ChunkView {
    ChunkView::StatusDelta("Thinking (iteration "@ + decimal(iteration + 1) + ")"@)
}

/// Number of 15-character pieces a text is streamed in.
pub open spec fn piece_count(n: nat) -> nat {
    (n + 14) / 15
}

/// Piece `k` of a streamed text.
pub open spec fn piece(t: Seq<char>, k: int) -> Seq<char> {
    t.subrange(15 * k, if 15 * k + 15 <= t.len() { 15 * k + 15 } else { t.len() as int })
}

/// A final answer streamed as text deltas of 15 characters (the last one
/// shorter).
pub open spec fn text_deltas(t: Seq<char>) -> Seq<ChunkView> {
    Seq::new(piece_count(t.len()), |k: int| ChunkView::TextDelta(piece(t, k)))
}

/// The events that deliver a final answer: its deltas, then `Done("stop")`.
pub open spec fn answer_events(t: Seq<char>) -> Seq<ChunkView> {
    text_deltas(t).push(ChunkView::Done(Some("stop"@)))
}

/// Reasoning streamed one character per event.
pub open spec fn thinking_deltas(r: Seq<char>) -> Seq<ChunkView> {
    Seq::new(r.len(), |i: int| ChunkView::ThinkingDelta(seq![r[i]]))
}

/// Start, arguments and end events of each requested tool call.
pub open spec fn call_events(cs: Seq<CallView>) -> Seq<ChunkView>
    decreases cs.len(),
{
    if cs.len() == 0 {
        Seq::empty()
    } else {
        call_events(cs.drop_last()) + seq![
            ChunkView::ToolCallStart(cs.last().id, cs.last().name),
            ChunkView::ToolCallDelta(cs.last().id, cs.last().arguments),
            ChunkView::ToolCallEnd(cs.last().id),
        ]
    }
}

/// The assistant message that records a tool-call reply.
pub open spec fn calls_msg(cs: Seq<CallView>, reasoning: Option<Seq<char>>) -> MsgView {
    MsgView {
        role: MessageRole::Assistant,
        content: Seq::empty(),
        tool_calls: Some(cs),
        tool_call_id: None,
        reasoning_content: reasoning,
    }
}

/// Events streamed for a tool-call reply: the reasoning (when present and not
/// empty), each call, then `ThinkingDone`.
pub open spec fn tool_call_events(cs: Seq<CallView>, reasoning: Option<Seq<char>>) -> Seq<ChunkView> {
    let thinking = match reasoning {
        Some(r) => thinking_deltas(r),
        None => Seq::empty(),
    };
    thinking + call_events(cs) + seq![ChunkView::ThinkingDone]
}

/// The tool message that carries a tool's output back to the model.
pub open spec fn tool_msg(call_id: Seq<char>, content: Seq<char>) -> MsgView {
    MsgView {
        role: MessageRole::Tool,
        content: seq![BlockView::Text(content)],
        tool_calls: None,
        tool_call_id: Some(call_id),
        reasoning_content: None,
    }
}

/// One line of a step's observation.
pub open spec fn observation_line(a: ActionView) -> Seq<char> {
    a.tool_name + ": "@ + a.result
}

/// Observation of a step: one line per action, joined by newlines.
pub open spec fn observation(acts: Seq<ActionView>) -> Seq<char>
    decreases acts.len(),
{
    if acts.len() == 0 {
        Seq::empty()
    } else if acts.len() == 1 {
        observation_line(acts[0])
    } else {
        observation(acts.drop_last()) + "\n"@ + observation_line(acts.last())
    }
}

/// The step recorded after the tools of an iteration ran.
pub open spec fn step_of(iteration: nat, reasoning: Option<Seq<char>>, acts: Seq<ActionView>) -> StepView {
    StepView {
        iteration,
        thought: match reasoning {
            Some(r) => r,
            None => "执行工具调用"@,
        },
        action: if acts.len() > 0 {
            Some(acts[0])
        } else {
            None
        },
        observation: Some(observation(acts)),
    }
}

/// Error text when the iteration budget is used up.
pub open spec fn limit_text(max: nat) -> Seq<char> {
    "达到最大迭代次数 ("@ + decimal(max) + ")"@
}

/// Error text when the model could not be reached.
pub open spec fn model_failure_text(e: Seq<char>) -> Seq<char> {
    "LLM 调用失败: "@ + e
}

proof fn lemma_first_text_block_skip(bs: Seq<BlockView>, i: int)
    requires
        0 <= i <= bs.len(),
        forall|k: int| 0 <= k < i ==> !(bs[k] is Text),
    ensures
        first_text_block(bs) == first_text_block(bs.skip(i)),
    decreases i,
{
    if i > 0 {
        assert(!(bs[0] is Text));
        assert forall|k: int| 0 <= k < i - 1 implies !(bs.drop_first()[k] is Text) by {
            assert(bs.drop_first()[k] == bs[k + 1]);
        }
        lemma_first_text_block_skip(bs.drop_first(), i - 1);
        assert(bs.drop_first().skip(i - 1) =~= bs.skip(i));
    } else {
        assert(bs.skip(0) =~= bs);
    }
}

proof fn lemma_first_user_text_skip(ms: Seq<MsgView>, i: int)
    requires
        0 <= i <= ms.len(),
        forall|k: int| 0 <= k < i ==> ms[k].role != MessageRole::User,
    ensures
        first_user_text(ms) == first_user_text(ms.skip(i)),
    decreases i,
{
    if i > 0 {
        assert(ms[0].role != MessageRole::User);
        assert forall|k: int| 0 <= k < i - 1 implies ms.drop_first()[k].role != MessageRole::User by {
            assert(ms.drop_first()[k] == ms[k + 1]);
        }
        lemma_first_user_text_skip(ms.drop_first(), i - 1);
        assert(ms.drop_first().skip(i - 1) =~= ms.skip(i));
    } else {
        assert(ms.skip(0) =~= ms);
    }
}

/// The first text block of a message's content.
fn first_text_of(content: &Vec<ContentBlock>) -> (r: Option<String>)
    ensures
        opt_view(r) == first_text_block(crate::providers::types::blocks_view(content@)),
{
    let ghost bv = crate::providers::types::blocks_view(content@);
    let mut i: usize = 0;
    while i < content.len()
        invariant
            i <= content@.len(),
            bv == crate::providers::types::blocks_view(content@),
            forall|k: int| 0 <= k < i ==> !(bv[k] is Text),
        decreases content.len() - i,
    {
        match &content[i] {
            ContentBlock::Text { text } => {
                proof {
                    lemma_first_text_block_skip(bv, i as int);
                }
                return Some(text.clone());
            },
            ContentBlock::Image { .. } => {},
        }
        i = i + 1;
    }
    proof {
        lemma_first_text_block_skip(bv, bv.len() as int);
        assert(bv.skip(bv.len() as int).len() == 0);
    }
    None
}

/// The request of a run: first text of the first user message.
pub fn first_user_request(messages: &Vec<UnifiedMessage>) -> (r: String)
    ensures
        r@ == first_user_text(msgs_view(messages@)),
{
    let ghost mv = msgs_view(messages@);
    let mut i: usize = 0;
    while i < messages.len()
        invariant
            i <= messages@.len(),
            mv == msgs_view(messages@),
            forall|k: int| 0 <= k < i ==> mv[k].role != MessageRole::User,
        decreases messages.len() - i,
    {
        if messages[i].role == MessageRole::User {
            proof {
                lemma_first_user_text_skip(mv, i as int);
                assert(mv.skip(i as int)[0] == mv[i as int]);
            }
            return match first_text_of(&messages[i].content) {
                Some(t) => t,
                None => String::new(),
            };
        }
        i = i + 1;
    }
    proof {
        lemma_first_user_text_skip(mv, i as int);
    }
    String::new()
}

fn memory_entry_exec(m: &Memory, out: &mut Vec<char>)
    ensures
        final(out)@ == old(out)@ + memory_entry(*m),
{
    append_str(out, "任务: ");
    append_str(out, m.task.as_str());
    append_str(out, "\n解决方案: ");
    append_str(out, m.solution.as_str());
    append_str(out, "\n使用工具: ");
    append_str(out, m.tools_used.as_str());
    append_str(out, "\n");
    assert(final(out)@ =~= old(out)@ + memory_entry(*m));
}

/// The text handed to the model with remembered solutions.
pub fn memory_context_text(memories: &Vec<Memory>) -> (r: String)
    ensures
        r@ == memory_context(memories@),
{
    let mut out: Vec<char> = Vec::new();
    append_str(&mut out, "[记忆检索 — 找到 ");
    let n = decimal_chars(memories.len());
    append_chars(&mut out, &n);
    append_str(&mut out, " 条相似任务的解决方案]\n\n");
    let ghost head = out@;
    let mut i: usize = 0;
    while i < memories.len()
        invariant
            i <= memories@.len(),
            out@ == head + memory_entries(memories@.take(i as int)),
        decreases memories.len() - i,
    {
        if i > 0 {
            append_str(&mut out, "\n---\n");
        }
        memory_entry_exec(&memories[i], &mut out);
        proof {
            assert(memories@.take(i + 1).drop_last() =~= memories@.take(i as int));
            if i == 0 {
                assert(memory_entries(memories@.take(0)) =~= Seq::<char>::empty());
            }
        }
        i = i + 1;
        assert(out@ =~= head + memory_entries(memories@.take(i as int)));
    }
    assert(memories@.take(i as int) =~= memories@);
    assert(out@ =~= memory_context(memories@));
    string_from_chars(&out)
}

/// A copy of the tool calls.
pub fn clone_calls(calls: &Vec<ToolCall>) -> (r: Vec<ToolCall>)
    ensures
        calls_view(r@) == calls_view(calls@),
{
    let mut r: Vec<ToolCall> = Vec::new();
    let mut i: usize = 0;
    while i < calls.len()
        invariant
            i <= calls.len(),
            r@.len() == i,
            calls_view(r@) == calls_view(calls@).take(i as int),
        decreases calls.len() - i,
    {
        let c = ToolCall {
            id: calls[i].id.clone(),
            name: calls[i].name.clone(),
            arguments: calls[i].arguments.clone(),
        };
        r.push(c);
        i = i + 1;
        assert(calls_view(r@) =~= calls_view(calls@).take(i as int));
    }
    assert(calls_view(calls@).take(i as int) =~= calls_view(calls@));
    r
}

fn clone_opt(o: &Option<String>) -> (r: Option<String>)
    ensures
        opt_view(r) == opt_view(*o),
{
    match o {
        Some(s) => Some(s.clone()),
        None => None,
    }
}

/// The events that deliver a final answer.
pub fn answer_chunks(text: &str) -> (r: Vec<StreamChunk>)
    ensures
        chunks_view(r@) == answer_events(text@),
{
    let cs = str_chars(text);
    let n = cs.len();
    let mut r: Vec<StreamChunk> = Vec::new();
    let mut k: usize = 0;
    let mut i: usize = 0;
    while i < n
        invariant
            cs@ == text@,
            n == cs@.len(),
            i == 15 * k,
            i <= n + 14,
            i < n ==> k < piece_count(n as nat),
            i >= n ==> k == piece_count(n as nat),
            r@.len() == k,
            chunks_view(r@) == text_deltas(text@).take(k as int),
        decreases n + 14 - i,
    {
        let end = if n - i >= 15 { i + 15 } else { n };
        let mut piece_cs: Vec<char> = Vec::new();
        let mut j: usize = i;
        while j < end
            invariant
                i <= j <= end <= n,
                n == cs@.len(),
                piece_cs@ == cs@.subrange(i as int, j as int),
            decreases end - j,
        {
            piece_cs.push(cs[j]);
            j = j + 1;
            assert(piece_cs@ =~= cs@.subrange(i as int, j as int));
        }
        assert(piece_cs@ == piece(text@, k as int));
        r.push(StreamChunk::TextDelta { delta: string_from_chars(&piece_cs) });
        k = k + 1;
        i = i + 15;
        assert(chunks_view(r@) =~= text_deltas(text@).take(k as int));
    }
    assert(text_deltas(text@).take(k as int) =~= text_deltas(text@));
    r.push(StreamChunk::Done { finish_reason: Some("stop".to_owned()) });
    assert(chunks_view(r@) =~= answer_events(text@));
    r
}

/// The memory saved for a successful run: none when the request was empty.
pub fn memory_record(user_task: &str, answer: &str, tools_used: &Vec<String>, now: i64) -> (r: Option<Memory>)
    ensures
        user_task@.len() == 0 ==> r is None,
        user_task@.len() > 0 ==> r is Some && r->0.id is None && r->0.task@ == user_task@
            && r->0.solution@ == answer@ && r->0.tools_used@ == json_string_array(
            tools_used@.map_values(|s: String| s@),
        ) && r->0.success && r->0.timestamp == now && r->0.failure_reason is None
            && r->0.fix_applied is None,
{
    if user_task.unicode_len() == 0 {
        return None;
    }
    Some(Memory {
        id: None,
        task: user_task.to_owned(),
        solution: answer.to_owned(),
        tools_used: string_array(tools_used),
        success: true,
        timestamp: now,
        failure_reason: None,
        fix_applied: None,
    })
}

/// Text of the error reported when the model could not be reached.
pub fn model_failure(e: &str) -> (r: String)
    ensures
        r@ == model_failure_text(e@),
{
    let mut out: Vec<char> = Vec::new();
    append_str(&mut out, "LLM 调用失败: ");
    append_str(&mut out, e);
    string_from_chars(&out)
}

impl Agent {
    /// Estimated tokens of the current context.
    pub fn context_estimate(&self) -> (n: usize)
        requires
            total_chars(self.ctx()) <= usize::MAX,
            estimate(self.ctx()) <= usize::MAX,
        ensures
            n == estimate(self.ctx()),
    {
        ContextCompactor::estimate_tokens(self.context.as_slice())
    }

    /// Starts a run on the given messages; returns the request text.
    pub fn start(&mut self, initial_messages: Vec<UnifiedMessage>) -> (task: String)
        ensures
            final(self).ctx() == msgs_view(initial_messages@),
            task@ == first_user_text(msgs_view(initial_messages@)),
            final(self).steps == old(self).steps,
            final(self).config == old(self).config,
            final(self).tools() == old(self).tools(),
            final(self).allowed_tools == old(self).allowed_tools,
            final(self).prompt_tokens == old(self).prompt_tokens,
            final(self).completion_tokens == old(self).completion_tokens,
            final(self).spawn_count == old(self).spawn_count,
            final(self).total_child_runs == old(self).total_child_runs,
            final(self).depth == old(self).depth,
    {
        self.context = initial_messages;
        first_user_request(&self.context)
    }

    /// Puts remembered solutions in front of the context (nothing when there
    /// are none).
    pub fn recall(&mut self, memories: &Vec<Memory>)
        ensures
            memories@.len() == 0 ==> final(self).ctx() == old(self).ctx(),
            memories@.len() > 0 ==> final(self).ctx() == seq![
                text_msg(MessageRole::User, memory_context(memories@)),
            ] + old(self).ctx(),
            final(self).steps == old(self).steps,
            final(self).config == old(self).config,
            final(self).tools() == old(self).tools(),
            final(self).allowed_tools == old(self).allowed_tools,
            final(self).prompt_tokens == old(self).prompt_tokens,
            final(self).completion_tokens == old(self).completion_tokens,
            final(self).spawn_count == old(self).spawn_count,
            final(self).total_child_runs == old(self).total_child_runs,
            final(self).depth == old(self).depth,
    {
        if memories.len() > 0 {
            let text = memory_context_text(memories);
            let m = UnifiedMessage::text(MessageRole::User, text);
            self.context.insert(0, m);
            assert(self.ctx() =~= seq![text_msg(MessageRole::User, memory_context(memories@))]
                + old(self).ctx());
        }
    }

    /// Starts iteration `iteration` (counted from zero): the context's
    /// estimated size is added to the prompt tokens, and a status line says
    /// which iteration runs.
    pub fn begin_iteration(&mut self, iteration: usize) -> (c: StreamChunk)
        requires
            iteration < usize::MAX,
            total_chars(old(self).ctx()) <= usize::MAX,
            estimate(old(self).ctx()) + old(self).prompt_tokens <= usize::MAX,
        ensures
            final(self).prompt_tokens == old(self).prompt_tokens + estimate(old(self).ctx()),
            c@ == thinking_status(iteration as nat),
            final(self).context == old(self).context,
            final(self).steps == old(self).steps,
            final(self).config == old(self).config,
            final(self).tools() == old(self).tools(),
            final(self).allowed_tools == old(self).allowed_tools,
            final(self).completion_tokens == old(self).completion_tokens,
            final(self).spawn_count == old(self).spawn_count,
            final(self).total_child_runs == old(self).total_child_runs,
            final(self).depth == old(self).depth,
    {
        let n = self.context_estimate();
        self.prompt_tokens = self.prompt_tokens + n;
        let mut out: Vec<char> = Vec::new();
        append_str(&mut out, "Thinking (iteration ");
        let d = decimal_chars(iteration + 1);
        append_chars(&mut out, &d);
        append_str(&mut out, ")");
        StreamChunk::StatusDelta { message: string_from_chars(&out) }
    }

    /// The model answered in text: the answer's estimated size is added to
    /// the completion tokens and the run succeeds after `iteration + 1`
    /// iterations with the steps logged so far.
    pub fn finish_with_answer(&mut self, text: String, iteration: usize) -> (r: AgentResult)
        requires
            iteration < usize::MAX,
            total_chars(seq![text_msg(MessageRole::Assistant, text@)]) <= usize::MAX,
            estimate(seq![text_msg(MessageRole::Assistant, text@)]) + old(self).completion_tokens
                <= usize::MAX,
        ensures
            final(self).completion_tokens == old(self).completion_tokens + estimate(
                seq![text_msg(MessageRole::Assistant, text@)],
            ),
            r.success,
            r.final_answer@ == text@,
            r.iterations == iteration + 1,
            steps_view(r.steps@) == old(self).log(),
            final(self).context == old(self).context,
            final(self).steps == old(self).steps,
            final(self).config == old(self).config,
            final(self).tools() == old(self).tools(),
            final(self).allowed_tools == old(self).allowed_tools,
            final(self).prompt_tokens == old(self).prompt_tokens,
            final(self).spawn_count == old(self).spawn_count,
            final(self).total_child_runs == old(self).total_child_runs,
            final(self).depth == old(self).depth,
    {
        let m = UnifiedMessage::text(MessageRole::Assistant, text.clone());
        let mut one: Vec<UnifiedMessage> = Vec::new();
        one.push(m);
        assert(msgs_view(one@) =~= seq![text_msg(MessageRole::Assistant, text@)]);
        let n = ContextCompactor::estimate_tokens(one.as_slice());
        self.completion_tokens = self.completion_tokens + n;
        AgentResult {
            success: true,
            final_answer: text,
            iterations: iteration + 1,
            steps: clone_steps(&self.steps),
        }
    }

    /// The model asked for tools: the reply's estimated size is added to the
    /// completion tokens; returns the events to stream for it.
    pub fn accept_tool_calls(&mut self, calls: &Vec<ToolCall>, reasoning: &Option<String>) -> (r: Vec<StreamChunk>)
        requires
            total_chars(seq![calls_msg(calls_view(calls@), opt_view(*reasoning))]) <= usize::MAX,
            estimate(seq![calls_msg(calls_view(calls@), opt_view(*reasoning))])
                + old(self).completion_tokens <= usize::MAX,
        ensures
            final(self).completion_tokens == old(self).completion_tokens + estimate(
                seq![calls_msg(calls_view(calls@), opt_view(*reasoning))],
            ),
            chunks_view(r@) == tool_call_events(calls_view(calls@), opt_view(*reasoning)),
            final(self).context == old(self).context,
            final(self).steps == old(self).steps,
            final(self).config == old(self).config,
            final(self).tools() == old(self).tools(),
            final(self).allowed_tools == old(self).allowed_tools,
            final(self).prompt_tokens == old(self).prompt_tokens,
            final(self).spawn_count == old(self).spawn_count,
            final(self).total_child_runs == old(self).total_child_runs,
            final(self).depth == old(self).depth,
    {
        let m = UnifiedMessage {
            role: MessageRole::Assistant,
            content: Vec::new(),
            tool_calls: Some(clone_calls(calls)),
            tool_call_id: None,
            reasoning_content: clone_opt(reasoning),
        };
        let mut one: Vec<UnifiedMessage> = Vec::new();
        one.push(m);
        assert(msgs_view(one@)[0].content =~= Seq::<BlockView>::empty());
        assert(msgs_view(one@) =~= seq![calls_msg(calls_view(calls@), opt_view(*reasoning))]);
        let n = ContextCompactor::estimate_tokens(one.as_slice());
        self.completion_tokens = self.completion_tokens + n;
        let mut r: Vec<StreamChunk> = Vec::new();
        match reasoning {
            Some(text) => {
                let cs = str_chars(text.as_str());
                let mut i: usize = 0;
                while i < cs.len()
                    invariant
                        i <= cs@.len(),
                        cs@ == text@,
                        r@.len() == i,
                        chunks_view(r@) == thinking_deltas(cs@).take(i as int),
                    decreases cs.len() - i,
                {
                    let mut one_char: Vec<char> = Vec::new();
                    one_char.push(cs[i]);
                    assert(one_char@ =~= seq![cs@[i as int]]);
                    r.push(StreamChunk::ThinkingDelta { delta: string_from_chars(&one_char) });
                    i = i + 1;
                    assert(chunks_view(r@) =~= thinking_deltas(cs@).take(i as int));
                }
                assert(thinking_deltas(cs@).take(i as int) =~= thinking_deltas(cs@));
            },
            None => {
                assert(chunks_view(r@) =~= Seq::<ChunkView>::empty());
            },
        }
        let ghost head = chunks_view(r@);
        let ghost cv = calls_view(calls@);
        let mut j: usize = 0;
        while j < calls.len()
            invariant
                j <= calls@.len(),
                cv == calls_view(calls@),
                chunks_view(r@) == head + call_events(cv.take(j as int)),
            decreases calls.len() - j,
        {
            let ghost before = r@;
            r.push(StreamChunk::ToolCallStart { id: calls[j].id.clone(), name: calls[j].name.clone() });
            r.push(StreamChunk::ToolCallDelta { id: calls[j].id.clone(), arguments_delta: calls[j].arguments.clone() });
            r.push(StreamChunk::ToolCallEnd { id: calls[j].id.clone() });
            assert(chunks_view(r@) =~= chunks_view(before) + seq![
                ChunkView::ToolCallStart(cv[j as int].id, cv[j as int].name),
                ChunkView::ToolCallDelta(cv[j as int].id, cv[j as int].arguments),
                ChunkView::ToolCallEnd(cv[j as int].id),
            ]);
            proof {
                assert(cv.take(j + 1).drop_last() =~= cv.take(j as int));
                assert(cv.take(j + 1).last() == cv[j as int]);
                assert(call_events(cv.take(j + 1)) == call_events(cv.take(j as int)) + seq![
                    ChunkView::ToolCallStart(cv[j as int].id, cv[j as int].name),
                    ChunkView::ToolCallDelta(cv[j as int].id, cv[j as int].arguments),
                    ChunkView::ToolCallEnd(cv[j as int].id),
                ]);
            }
            j = j + 1;
            assert(chunks_view(r@) =~= head + call_events(cv.take(j as int)));
        }
        assert(cv.take(j as int) =~= cv);
        r.push(StreamChunk::ThinkingDone {  });
        assert(chunks_view(r@) =~= tool_call_events(calls_view(calls@), opt_view(*reasoning)));
        r
    }

    /// Records the model's tool-call reply in the context.
    pub fn remember_tool_calls(&mut self, calls: Vec<ToolCall>, reasoning: Option<String>)
        ensures
            final(self).ctx() == old(self).ctx().push(calls_msg(calls_view(calls@), opt_view(reasoning))),
            final(self).steps == old(self).steps,
            final(self).config == old(self).config,
            final(self).tools() == old(self).tools(),
            final(self).allowed_tools == old(self).allowed_tools,
            final(self).prompt_tokens == old(self).prompt_tokens,
            final(self).completion_tokens == old(self).completion_tokens,
            final(self).spawn_count == old(self).spawn_count,
            final(self).total_child_runs == old(self).total_child_runs,
            final(self).depth == old(self).depth,
    {
        let m = UnifiedMessage {
            role: MessageRole::Assistant,
            content: Vec::new(),
            tool_calls: Some(calls),
            tool_call_id: None,
            reasoning_content: reasoning,
        };
        self.context.push(m);
        assert(self.ctx().last().content =~= Seq::<BlockView>::empty());
        assert(self.ctx() =~= old(self).ctx().push(calls_msg(calls_view(calls@), opt_view(reasoning))));
    }

    /// Routes a requested call; a delegation counts as one more spawn.
    pub fn dispatch_tool(&mut self, name: &str) -> (r: ToolRoute)
        requires
            old(self).spawn_count < usize::MAX,
        ensures
            r == route_of(allowed_view(old(self).allowed_tools), name@),
            final(self).spawn_count == old(self).spawn_count + if r == ToolRoute::Delegate {
                1int
            } else {
                0int
            },
            final(self).context == old(self).context,
            final(self).steps == old(self).steps,
            final(self).config == old(self).config,
            final(self).tools() == old(self).tools(),
            final(self).allowed_tools == old(self).allowed_tools,
            final(self).prompt_tokens == old(self).prompt_tokens,
            final(self).completion_tokens == old(self).completion_tokens,
            final(self).total_child_runs == old(self).total_child_runs,
            final(self).depth == old(self).depth,
    {
        let r = self.route_tool(name);
        if r == ToolRoute::Delegate {
            self.spawn_count = self.spawn_count + 1;
        }
        r
    }

    /// A tool finished: its action is logged, its output goes back to the
    /// model as a tool message; returns the event that reports it.
    pub fn record_tool_result(&mut self, call: &ToolCall, result: &ToolResult, actions: &mut Vec<AgentAction>) -> (c: StreamChunk)
        ensures
            c@ == ChunkView::ToolResult(call.id@, call.name@, result.success, result.content@),
            actions_view(final(actions)@) == actions_view(old(actions)@).push(
                ActionView {
                    tool_name: call.name@,
                    arguments: call.arguments@,
                    result: result.content@,
                    success: result.success,
                },
            ),
            final(self).ctx() == old(self).ctx().push(tool_msg(call.id@, result.content@)),
            final(self).steps == old(self).steps,
            final(self).config == old(self).config,
            final(self).tools() == old(self).tools(),
            final(self).allowed_tools == old(self).allowed_tools,
            final(self).prompt_tokens == old(self).prompt_tokens,
            final(self).completion_tokens == old(self).completion_tokens,
            final(self).spawn_count == old(self).spawn_count,
            final(self).total_child_runs == old(self).total_child_runs,
            final(self).depth == old(self).depth,
    {
        actions.push(
            AgentAction {
                tool_name: call.name.clone(),
                arguments: call.arguments.clone(),
                result: result.content.clone(),
                success: result.success,
            },
        );
        assert(actions_view(actions@) =~= actions_view(old(actions)@).push(
            ActionView {
                tool_name: call.name@,
                arguments: call.arguments@,
                result: result.content@,
                success: result.success,
            },
        ));
        let mut content: Vec<ContentBlock> = Vec::new();
        content.push(ContentBlock::Text { text: result.content.clone() });
        let m = UnifiedMessage {
            role: MessageRole::Tool,
            content,
            tool_calls: None,
            tool_call_id: Some(call.id.clone()),
            reasoning_content: None,
        };
        self.context.push(m);
        assert(self.ctx().last().content =~= seq![BlockView::Text(result.content@)]);
        assert(self.ctx() =~= old(self).ctx().push(tool_msg(call.id@, result.content@)));
        StreamChunk::ToolResult {
            call_id: call.id.clone(),
            name: call.name.clone(),
            success: result.success,
            content: result.content.clone(),
        }
    }

    /// Logs the step of an iteration whose tools ran.
    pub fn finish_step(&mut self, iteration: usize, reasoning: Option<String>, actions: Vec<AgentAction>)
        ensures
            final(self).log() == old(self).log().push(
                step_of(iteration as nat, opt_view(reasoning), actions_view(actions@)),
            ),
            final(self).context == old(self).context,
            final(self).config == old(self).config,
            final(self).tools() == old(self).tools(),
            final(self).allowed_tools == old(self).allowed_tools,
            final(self).prompt_tokens == old(self).prompt_tokens,
            final(self).completion_tokens == old(self).completion_tokens,
            final(self).spawn_count == old(self).spawn_count,
            final(self).total_child_runs == old(self).total_child_runs,
            final(self).depth == old(self).depth,
    {
        let ghost av = actions_view(actions@);
        let mut obs: Vec<char> = Vec::new();
        let mut i: usize = 0;
        while i < actions.len()
            invariant
                i <= actions@.len(),
                av == actions_view(actions@),
                obs@ == observation(av.take(i as int)),
            decreases actions.len() - i,
        {
            if i > 0 {
                append_str(&mut obs, "\n");
            }
            append_str(&mut obs, actions[i].tool_name.as_str());
            append_str(&mut obs, ": ");
            append_str(&mut obs, actions[i].result.as_str());
            proof {
                assert(av.take(i + 1).drop_last() =~= av.take(i as int));
                assert(av[i as int] == actions@[i as int]@);
            }
            i = i + 1;
            assert(obs@ =~= observation(av.take(i as int)));
        }
        assert(av.take(i as int) =~= av);
        let thought = match reasoning {
            Some(r) => r,
            None => "执行工具调用".to_owned(),
        };
        let mut actions = actions;
        let first = if actions.len() > 0 {
            Some(actions.remove(0))
        } else {
            None
        };
        let step = AgentStep {
            iteration,
            thought,
            action: first,
            observation: Some(string_from_chars(&obs)),
        };
        self.steps.push(step);
        assert(self.log() =~= old(self).log().push(step_of(iteration as nat, opt_view(reasoning), av)));
    }

    /// The error that ends a run whose iteration budget is used up, with the
    /// events that report it.
    pub fn iteration_limit(&self) -> (r: (String, Vec<StreamChunk>))
        ensures
            r.0@ == limit_text(self.config.max_iterations as nat),
            chunks_view(r.1@) == seq![
                ChunkView::Error(limit_text(self.config.max_iterations as nat)),
                ChunkView::Done(Some("max_iterations"@)),
            ],
    {
        let mut out: Vec<char> = Vec::new();
        append_str(&mut out, "达到最大迭代次数 (");
        let d = decimal_chars(self.config.max_iterations);
        append_chars(&mut out, &d);
        append_str(&mut out, ")");
        let msg = string_from_chars(&out);
        let mut chunks: Vec<StreamChunk> = Vec::new();
        chunks.push(StreamChunk::Error { message: msg.clone() });
        chunks.push(StreamChunk::Done { finish_reason: Some("max_iterations".to_owned()) });
        assert(chunks_view(chunks@) =~= seq![
            ChunkView::Error(limit_text(self.config.max_iterations as nat)),
            ChunkView::Done(Some("max_iterations"@)),
        ]);
        (msg, chunks)
    }
}

/// How far a run has got: the model calls made so far, and whether the
/// last reply was the final answer.
#[derive(Debug, Clone, Copy, PartialEq, Eq, Structural)]
pub struct RunProgress {
    pub calls: usize,
    pub answered: bool,
}

/// The run asks the model again: no answer yet, and calls left in the
/// budget.
pub open spec fn wants_model(p: RunProgress, max: nat) -> bool {
    !p.answered && p.calls < max
}

/// The progress after one more reply.
pub open spec fn progress_after(p: RunProgress, answered: bool) -> RunProgress {
    RunProgress { calls: (p.calls + 1) as usize, answered }
}

/// The progress of a run whose model gives the replies `replies` in turn
/// (`true` for a final answer, `false` for tool calls), driven by these
/// steps until the run stops or the replies run out.
pub open spec fn driven(p: RunProgress, max: nat, replies: Seq<bool>) -> RunProgress
    decreases replies.len(),
{
    if wants_model(p, max) && replies.len() > 0 {
        driven(progress_after(p, replies[0]), max, replies.drop_first())
    } else {
        p
    }
}

/// A run asks the model at most `max_iterations` times and stops at the
/// first answer: driven from the start, the calls made never exceed the
/// budget, no reply before the last one taken was an answer, and the run
/// ends answered exactly when the last reply taken was an answer.
pub proof fn law_run_stops_at_answer_within_budget(max: nat, replies: Seq<bool>)
    requires
        max <= usize::MAX,
    ensures
        ({
            let end = driven(RunProgress { calls: 0, answered: false }, max, replies);
            &&& end.calls <= max
            &&& end.calls <= replies.len()
            &&& forall|k: int| 0 <= k < end.calls - 1 ==> !#[trigger] replies[k]
            &&& end.answered <==> (end.calls > 0 && replies[end.calls - 1])
            &&& (end.calls < max && end.calls < replies.len()) ==> end.answered
        }),
{
    lemma_driven(RunProgress { calls: 0, answered: false }, max, replies, Seq::empty());
}

proof fn lemma_driven(p: RunProgress, max: nat, rest: Seq<bool>, taken: Seq<bool>)
    requires
        max <= usize::MAX,
        p.calls == taken.len(),
        p.calls <= max,
        forall|k: int| 0 <= k < taken.len() - 1 ==> !#[trigger] taken[k],
        p.answered <==> (taken.len() > 0 && taken.last()),
    ensures
        ({
            let end = driven(p, max, rest);
            let all = taken + rest;
            &&& end.calls <= max
            &&& taken.len() <= end.calls <= all.len()
            &&& forall|k: int| 0 <= k < end.calls - 1 ==> !#[trigger] all[k]
            &&& end.answered <==> (end.calls > 0 && all[end.calls - 1])
            &&& (end.calls < max && end.calls < all.len()) ==> end.answered
        }),
    decreases rest.len(),
{
    let all = taken + rest;
    if wants_model(p, max) && rest.len() > 0 {
        let t2 = taken.push(rest[0]);
        assert(t2 + rest.drop_first() =~= all);
        assert forall|k: int| 0 <= k < t2.len() - 1 implies !#[trigger] t2[k] by {
            assert(t2[k] == taken[k]);
            if k == taken.len() - 1 {
                assert(taken.last() == taken[k]);
            }
        }
        lemma_driven(progress_after(p, rest[0]), max, rest.drop_first(), t2);
    } else {
        assert forall|k: int| 0 <= k < p.calls - 1 implies !#[trigger] all[k] by {
            assert(all[k] == taken[k]);
        }
        if p.calls > 0 {
            assert(all[p.calls - 1] == taken.last());
        }
    }
}

impl Agent {
    /// Whether the run asks the model again after `p`: not yet answered and
    /// fewer than `max_iterations` calls made.
    pub fn wants_model(&self, p: &RunProgress) -> (b: bool)
        ensures
            b == wants_model(*p, self.config.max_iterations as nat),
    {
        !p.answered && p.calls < self.config.max_iterations
    }
}

/// The progress of a run before its first call.
pub fn run_start() -> (p: RunProgress)
    ensures
        p == (RunProgress { calls: 0, answered: false }),
{
    RunProgress { calls: 0, answered: false }
}

/// The progress after the model replied, with an answer or not.
pub fn after_reply(p: &RunProgress, answered: bool) -> (r: RunProgress)
    requires
        p.calls < usize::MAX,
    ensures
        r == progress_after(*p, answered),
{
    RunProgress { calls: p.calls + 1, answered }
}

} // verus!
