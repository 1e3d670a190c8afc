//! The turn loop of a thread: context assembly, accumulation of a model's
//! response stream, and recording of tool runs. The caller performs the model
//! and tool calls and publishes the events.
use vstd::prelude::*;
use crate::domain::{
    usage_fits, usage_sum, ContentPart, Message, MessageRole, TokenUsage, ToolCall, ToolResult, Turn,
    TurnItem, single_text,
};
use crate::json::{json_reformat, reformat};
use crate::ports::{StreamChunk, StreamEvent};
use crate::providers::types::opt_view;
use crate::text::{append_str, push_str, string_from_chars};

verus! {

/// Iterations of one turn at most.
pub const MAX_ITERATIONS: usize = 15;

/// The first system prompt of every context.
pub open spec fn system_prompt() -> Seq<char> {
    "You are a helpful AI assistant with access to tools."@
}

/// A message expected in a context: role and text.
pub open spec fn text_of(m: Message) -> Option<(MessageRole, Seq<char>)> {
    if m.content@.len() == 1 {
        match m.content@[0] {
            ContentPart::Text { text } => Some((m.role, text@)),
            _ => None,
        }
    } else {
        None
    }
}

/// Conversation text of one turn: its user messages and assistant texts.
pub open spec fn turn_dialogue(items: Seq<TurnItem>) -> Seq<(MessageRole, Seq<char>)>
    decreases items.len(),
{
    if items.len() == 0 {
        Seq::empty()
    } else {
        let rest = turn_dialogue(items.drop_last());
        match items.last() {
            TurnItem::UserMessage { text, .. } => rest.push((MessageRole::User, text@)),
            TurnItem::AssistantText { text } => rest.push((MessageRole::Assistant, text@)),
            _ => rest,
        }
    }
}

/// Conversation text of past turns, oldest turn last in `recent` (the store
/// lists newest first), so they are read in reverse.
pub open spec fn history_dialogue(recent: Seq<Turn>) -> Seq<(MessageRole, Seq<char>)>
    decreases recent.len(),
{
    if recent.len() == 0 {
        Seq::empty()
    } else {
        history_dialogue(recent.drop_first()) + turn_dialogue(recent[0].items@)
    }
}

/// The context sent with the first request of a turn.
pub open spec fn turn_context(workspace: Option<Seq<char>>, recent: Seq<Turn>, current: Seq<TurnItem>) -> Seq<(MessageRole, Seq<char>)> {
    seq![(MessageRole::System, system_prompt())] + match workspace {
        Some(w) => seq![(MessageRole::System, "Current workspace: "@ + w)],
        None => Seq::empty(),
    } + history_dialogue(recent) + if current.len() > 0 {
        match current[0] {
            TurnItem::UserMessage { text, .. } => seq![(MessageRole::User, text@)],
            _ => Seq::empty(),
        }
    } else {
        Seq::empty()
    }
}

fn dialogue_of_turn(items: &Vec<TurnItem>, out: &mut Vec<Message>)
    ensures
        final(out)@.len() == old(out)@.len() + turn_dialogue(items@).len(),
        forall|k: int| 0 <= k < old(out)@.len() ==> final(out)@[k] == old(out)@[k],
        forall|k: int| 0 <= k < turn_dialogue(items@).len() ==> text_of(#[trigger] final(out)@[old(out)@.len() + k])
            == Some(turn_dialogue(items@)[k]),
{
    let ghost base = old(out)@.len();
    let mut i: usize = 0;
    while i < items.len()
        invariant
            i <= items@.len(),
            base == old(out)@.len(),
            out@.len() == base + turn_dialogue(items@.take(i as int)).len(),
            forall|k: int| 0 <= k < base ==> out@[k] == old(out)@[k],
            forall|k: int| 0 <= k < turn_dialogue(items@.take(i as int)).len() ==> text_of(#[trigger] out@[base + k])
                == Some(turn_dialogue(items@.take(i as int))[k]),
        decreases items.len() - i,
    {
        proof {
            assert(items@.take(i + 1).drop_last() =~= items@.take(i as int));
        }
        match &items[i] {
            TurnItem::UserMessage { text, .. } => {
                out.push(Message::user(text.clone()));
            },
            TurnItem::AssistantText { text } => {
                out.push(Message::assistant(text.clone()));
            },
            _ => {},
        }
        i = i + 1;
    }
    assert(items@.take(i as int) =~= items@);
}

/// Builds the context of a turn: the system prompt, the workspace (when the
/// thread has one), the dialogue of the recent turns from oldest to newest,
/// and the turn's own user message.
pub fn build_context(workspace: &Option<String>, recent: &Vec<Turn>, current: &Turn) -> (r: Vec<Message>)
    ensures
        r@.len() == turn_context(opt_view(*workspace), recent@, current.items@).len(),
        forall|k: int| 0 <= k < r@.len() ==> text_of(#[trigger] r@[k]) == Some(
            turn_context(opt_view(*workspace), recent@, current.items@)[k],
        ),
{
    let ghost want = turn_context(opt_view(*workspace), recent@, current.items@);
    let mut r: Vec<Message> = Vec::new();
    r.push(Message::system("You are a helpful AI assistant with access to tools.".to_owned()));
    let ghost mut sofar: Seq<(MessageRole, Seq<char>)> = seq![(MessageRole::System, system_prompt())];
    match workspace {
        Some(w) => {
            let mut t: Vec<char> = Vec::new();
            append_str(&mut t, "Current workspace: ");
            append_str(&mut t, w.as_str());
            r.push(Message::system(string_from_chars(&t)));
            proof {
                sofar = sofar.push((MessageRole::System, "Current workspace: "@ + w@));
            }
        },
        None => {},
    }
    assert(r@.len() == sofar.len());
    assert(forall|k: int| 0 <= k < r@.len() ==> text_of(#[trigger] r@[k]) == Some(sofar[k]));
    let mut j: usize = recent.len();
    while j > 0
        invariant
            j <= recent@.len(),
            r@.len() == sofar.len() + history_dialogue(recent@.skip(j as int)).len(),
            forall|k: int| 0 <= k < r@.len() ==> text_of(#[trigger] r@[k]) == Some(
                (sofar + history_dialogue(recent@.skip(j as int)))[k],
            ),
        decreases j,
    {
        let ghost before = r@;
        let ghost hb = history_dialogue(recent@.skip(j as int));
        dialogue_of_turn(&recent[j - 1].items, &mut r);
        proof {
            assert(recent@.skip(j - 1).drop_first() =~= recent@.skip(j as int));
            assert(recent@.skip(j - 1)[0] == recent@[j - 1]);
            let td = turn_dialogue(recent@[j - 1].items@);
            assert(history_dialogue(recent@.skip(j - 1)) == hb + td);
            assert forall|k: int| 0 <= k < r@.len() implies text_of(#[trigger] r@[k]) == Some(
                (sofar + history_dialogue(recent@.skip(j - 1)))[k],
            ) by {
                if k < before.len() {
                    assert(r@[k] == before[k]);
                } else {
                    let kk = k - before.len();
                    assert(r@[before.len() + kk] == r@[k]);
                }
            }
        }
        j = j - 1;
    }
    assert(recent@.skip(0) =~= recent@);
    let ghost hist = sofar + history_dialogue(recent@);
    if current.items.len() > 0 {
        match &current.items[0] {
            TurnItem::UserMessage { text, .. } => {
                r.push(Message::user(text.clone()));
                assert(hist.push((MessageRole::User, text@)) =~= want);
            },
            _ => {
                assert(hist =~= want);
            },
        }
    } else {
        assert(hist =~= want);
    }
    r
}

/// The response of one model request, as it streams in.
pub struct TurnStream {
    pub text: String,
    pub reasoning: String,
    /// Completed tool calls, arguments as compact JSON text.
    pub calls: Vec<ToolCall>,
    /// The tool call whose arguments are streaming.
    pub current: Option<ToolCall>,
}

/// Arguments of a completed call: the streamed JSON re-written compactly, or
/// `{}` when it does not parse.
pub open spec fn final_arguments(args: Seq<char>) -> Seq<char> {
    match json_reformat(args) {
        Some(a) => a,
        None => "{}"@,
    }
}

impl TurnStream {
    /// Nothing received yet.
    pub fn new() -> (r: TurnStream)
        ensures
            r.text@.len() == 0,
            r.reasoning@.len() == 0,
            r.calls@.len() == 0,
            r.current is None,
    {
        TurnStream { text: String::new(), reasoning: String::new(), calls: Vec::new(), current: None }
    }

    /// Takes one stream item: text and reasoning accumulate; a call start
    /// opens a call; argument pieces of the open call accumulate; a call
    /// completion closes the open call (kept when its id matches); usage
    /// reports add to `usage`. Returns the event to publish, if any.
    pub fn on_chunk(&mut self, chunk: &StreamChunk, usage: &mut TokenUsage) -> (ev: Option<StreamEvent>)
        requires
            *chunk matches StreamChunk::Done { usage: u } ==> usage_fits(*old(usage), u),
        ensures
            match *chunk {
                StreamChunk::TextDelta { text } => final(self).text@ == old(self).text@ + text@
                    && final(self).reasoning == old(self).reasoning && final(self).calls == old(self).calls
                    && final(self).current == old(self).current && *final(usage) == *old(usage)
                    && ev == Some(StreamEvent::TextDelta { text }),
                StreamChunk::ReasoningDelta { text } => final(self).reasoning@ == old(self).reasoning@ + text@
                    && final(self).text == old(self).text && final(self).calls == old(self).calls
                    && final(self).current == old(self).current && *final(usage) == *old(usage)
                    && ev == Some(StreamEvent::ReasoningDelta { text }),
                StreamChunk::ToolCallStart { id, name } => final(self).current matches Some(c) && c.id == id
                    && c.name == name && c.arguments@.len() == 0 && final(self).text == old(self).text
                    && final(self).reasoning == old(self).reasoning && final(self).calls == old(self).calls
                    && *final(usage) == *old(usage) && ev == Some(StreamEvent::ToolCallStarted { id, name }),
                StreamChunk::ToolCallArgsDelta { id, args_json } => (match old(self).current {
                    Some(c) => if c.id@ == id@ {
                        final(self).current matches Some(n) && n.id == c.id && n.name == c.name
                            && n.arguments@ == c.arguments@ + args_json@
                    } else {
                        final(self).current == old(self).current
                    },
                    None => final(self).current is None,
                }) && final(self).text == old(self).text && final(self).reasoning == old(self).reasoning
                    && final(self).calls == old(self).calls && *final(usage) == *old(usage)
                    && ev == Some(StreamEvent::ToolCallArgsDelta { id, args_json }),
                StreamChunk::ToolCallComplete { id } => final(self).current is None && (match old(self).current {
                    Some(c) => if c.id@ == id@ {
                        final(self).calls@.len() == old(self).calls@.len() + 1
                            && final(self).calls@.drop_last() == old(self).calls@
                            && final(self).calls@.last().id == c.id && final(self).calls@.last().name == c.name
                            && final(self).calls@.last().arguments@ == final_arguments(c.arguments@)
                    } else {
                        final(self).calls == old(self).calls
                    },
                    None => final(self).calls == old(self).calls,
                }) && final(self).text == old(self).text && final(self).reasoning == old(self).reasoning
                    && *final(usage) == *old(usage) && ev == Some(StreamEvent::ToolCallComplete { id }),
                StreamChunk::Done { usage: u } => *final(usage) == usage_sum(*old(usage), u)
                    && final(self).text == old(self).text && final(self).reasoning == old(self).reasoning
                    && final(self).calls == old(self).calls && final(self).current == old(self).current
                    && ev is None,
            },
    {
        match chunk {
            StreamChunk::TextDelta { text } => {
                push_str(&mut self.text, text.as_str());
                Some(StreamEvent::TextDelta { text: text.clone() })
            },
            StreamChunk::ReasoningDelta { text } => {
                push_str(&mut self.reasoning, text.as_str());
                Some(StreamEvent::ReasoningDelta { text: text.clone() })
            },
            StreamChunk::ToolCallStart { id, name } => {
                self.current = Some(ToolCall { id: id.clone(), name: name.clone(), arguments: String::new() });
                Some(StreamEvent::ToolCallStarted { id: id.clone(), name: name.clone() })
            },
            StreamChunk::ToolCallArgsDelta { id, args_json } => {
                match self.current.take() {
                    Some(c) => {
                        if c.id == *id {
                            let mut args = c.arguments;
                            push_str(&mut args, args_json.as_str());
                            self.current = Some(ToolCall { id: c.id, name: c.name, arguments: args });
                        } else {
                            self.current = Some(c);
                        }
                    },
                    None => {},
                }
                Some(StreamEvent::ToolCallArgsDelta { id: id.clone(), args_json: args_json.clone() })
            },
            StreamChunk::ToolCallComplete { id } => {
                match self.current.take() {
                    Some(c) => {
                        if c.id == *id {
                            let args = match reformat(c.arguments.as_str()) {
                                Some(a) => a,
                                None => "{}".to_owned(),
                            };
                            self.calls.push(ToolCall { id: c.id, name: c.name, arguments: args });
                            assert(self.calls@.drop_last() =~= old(self).calls@);
                        }
                    },
                    None => {},
                }
                Some(StreamEvent::ToolCallComplete { id: id.clone() })
            },
            StreamChunk::Done { usage: u } => {
                usage.add(u);
                None
            },
        }
    }

    /// After the stream ended: the reasoning and the text (when not empty) are
    /// recorded in the turn, and the text joins the context as an assistant
    /// message. Returns whether tools were requested.
    pub fn record(&self, turn: &mut Turn, context: &mut Vec<Message>) -> (more: bool)
        ensures
            more == (self.calls@.len() > 0),
            final(turn).items@ == old(turn).items@ + (if self.reasoning@.len() > 0 {
                seq![TurnItem::AssistantReasoning { content: self.reasoning }]
            } else {
                Seq::empty()
            }) + (if self.text@.len() > 0 {
                seq![TurnItem::AssistantText { text: self.text }]
            } else {
                Seq::empty()
            }),
            final(turn).usage == old(turn).usage,
            final(turn).id == old(turn).id,
            final(turn).status == old(turn).status,
            self.text@.len() > 0 ==> final(context)@.len() == old(context)@.len() + 1
                && final(context)@.drop_last() == old(context)@
                && single_text(final(context)@.last(), MessageRole::Assistant, self.text),
            self.text@.len() == 0 ==> final(context)@ == old(context)@,
    {
        if self.reasoning.as_str().unicode_len() > 0 {
            turn.add_item(TurnItem::AssistantReasoning { content: self.reasoning.clone() });
        }
        if self.text.as_str().unicode_len() > 0 {
            turn.add_item(TurnItem::AssistantText { text: self.text.clone() });
            context.push(Message::assistant(self.text.clone()));
            assert(context@.drop_last() =~= old(context)@);
        }
        assert(turn.items@ =~= old(turn).items@ + (if self.reasoning@.len() > 0 {
            seq![TurnItem::AssistantReasoning { content: self.reasoning }]
        } else {
            Seq::empty()
        }) + (if self.text@.len() > 0 {
            seq![TurnItem::AssistantText { text: self.text }]
        } else {
            Seq::empty()
        }));
        self.calls.len() > 0
    }
}

/// Records a tool run of the turn: the call, then its result (or the error
/// that stopped it); the result goes back to the model as a tool-result part
/// of a user message. Returns the event to publish.
pub fn record_tool_run(call: &ToolCall, outcome: &Result<ToolResult, String>, turn: &mut Turn, context: &mut Vec<Message>) -> (ev: StreamEvent)
    ensures
        final(turn).items@.len() == old(turn).items@.len() + 2,
        final(turn).items@.take(old(turn).items@.len() as int) == old(turn).items@,
        final(turn).items@[old(turn).items@.len() as int] == (TurnItem::ToolCall {
            id: call.id,
            name: call.name,
            args: call.arguments,
        }),
        final(context)@.len() == old(context)@.len() + 1,
        final(context)@.drop_last() == old(context)@,
        final(context)@.last().role == MessageRole::User,
        final(context)@.last().content@.len() == 1,
        match *outcome {
            Ok(r) => final(turn).items@.last() == (TurnItem::ToolResult {
                call_id: call.id,
                result: r.output,
                error: r.error,
            }) && ev == (StreamEvent::ToolResultReceived {
                call_id: call.id,
                result: r.output,
                error: r.error,
            }) && final(context)@.last().content@[0] == (ContentPart::ToolResult {
                tool_use_id: call.id,
                content: r.output,
                is_error: r.error is Some,
            }),
            Err(e) => (final(turn).items@.last() matches TurnItem::ToolResult { call_id, result, error }
                && call_id == call.id && result@.len() == 0 && error == Some(e)) && (ev matches StreamEvent::ToolResultReceived { call_id, result, error }
                && call_id == call.id && result@.len() == 0 && error == Some(e))
                && final(context)@.last().content@[0] == (ContentPart::ToolResult {
                tool_use_id: call.id,
                content: e,
                is_error: true,
            }),
        },
        final(turn).usage == old(turn).usage,
        final(turn).id == old(turn).id,
        final(turn).status == old(turn).status,
{
    turn.add_item(TurnItem::ToolCall { id: call.id.clone(), name: call.name.clone(), args: call.arguments.clone() });
    let (result, error, content) = match outcome {
        Ok(r) => (r.output.clone(), r.error.clone(), r.output.clone()),
        Err(e) => (String::new(), Some(e.clone()), e.clone()),
    };
    let is_error = error.is_some();
    turn.add_item(TurnItem::ToolResult { call_id: call.id.clone(), result: result.clone(), error: error.clone() });
    let mut parts: Vec<ContentPart> = Vec::new();
    parts.push(ContentPart::ToolResult { tool_use_id: call.id.clone(), content, is_error });
    context.push(Message { role: MessageRole::User, content: parts });
    assert(context@.drop_last() =~= old(context)@);
    assert(turn.items@.take(old(turn).items@.len() as int) =~= old(turn).items@);
    StreamEvent::ToolResultReceived { call_id: call.id.clone(), result, error }
}

} // verus!
