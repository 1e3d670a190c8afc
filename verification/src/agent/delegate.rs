//! Delegation of a sub-task to a child agent (`delegate_task`). The caller
//! runs the child; these steps decide whether to run it, how it is set up, and
//! what the parent reports afterwards.
use vstd::prelude::*;
use crate::agent::run::text_msg;
use crate::agent::tool_registry::ToolRegistry;
use crate::agent::{Agent, AgentConfig};
use crate::json::{json_string_member, str_member};
use crate::providers::types::{msgs_view, ChunkView, MessageRole, StreamChunk, ToolCall, UnifiedMessage};
use crate::text::{append_chars, append_str, decimal, decimal_chars, string_from_chars};
use crate::tools::ToolResult;

verus! {

/// Child runs allowed in one thread tree.
pub open spec fn delegation_budget() -> nat {
    10
}

/// What a delegation asks for.
pub struct DelegatePlan {
    pub prompt: String,
    pub label: String,
    pub workspace: String,
    pub model: String,
}

/// A string member of the call's arguments, or a default.
pub open spec fn member_or(args: Seq<char>, key: Seq<char>, default: Seq<char>) -> Seq<char> {
    match json_string_member(args, key) {
        Some(v) => v,
        None => default,
    }
}

pub open spec fn budget_text() -> Seq<char> {
    "Error: Max delegation budget (10 runs) reached inside the thread tree."@
}

pub open spec fn missing_prompt_text() -> Seq<char> {
    "Error: Missing required argument 'prompt'."@
}

/// First message of a child agent.
pub open spec fn child_prompt_text(prompt: Seq<char>) -> Seq<char> {
    "[Task Delegation - 子沙盒运行]\n你是一个被委派的子智能体。你的目标是完成以下具体任务:\n\n任务指令: "@ + prompt
        + "\n\n重要: 请在当前工作区独立完成该任务，并在结束时输出清晰的最终回答。"@
}

/// Warning appended once a parent has spawned more than one child.
pub open spec fn spawn_warning(spawn_count: nat) -> Seq<char> {
    if spawn_count > 1 {
        "\n\n[Warning: Thread tree contains multiple child agent runs. Current parent spawn_count: "@
            + decimal(spawn_count) + ". Please avoid redundant recursive calls.]"@
    } else {
        Seq::empty()
    }
}

/// Result text of a child run that answered.
pub open spec fn child_success_text(answer: Seq<char>, ms: nat, warning: Seq<char>) -> Seq<char> {
    "Sub-agent completed target task successfully.\n\nFinal Summary:\n"@ + answer
        + "\n\nExecution Time: "@ + decimal(ms) + "ms"@ + warning
}

/// Result text of a child run that failed.
pub open spec fn child_failure_text(err: Seq<char>, warning: Seq<char>) -> Seq<char> {
    "Sub-agent execution encountered an error.\n\nError Details: "@ + err + warning
}

/// Status line of a finished child run.
pub open spec fn child_status(label: Seq<char>, outcome: Result<Seq<char>, Seq<char>>, ms: nat, p: nat, c: nat) -> ChunkView {
    match outcome {
        Ok(_) => ChunkView::StatusDelta(
            "[Delegation] Sub-agent '"@ + label + "' completed successfully in "@ + decimal(ms)
                + "ms (used estimated "@ + decimal(p) + " prompt, "@ + decimal(c)
                + " completion tokens)"@,
        ),
        Err(e) => ChunkView::StatusDelta("[Delegation] Sub-agent '"@ + label + "' failed: "@ + e),
    }
}

impl Agent {
    /// Checks a `delegate_task` call: refused once the thread tree used its
    /// budget of ten child runs, or when no `prompt` is given; otherwise the
    /// label (default `subtask`), workspace (default: this agent's) and model
    /// (default: the parent's) of the child.
    pub fn plan_delegation(&self, tc: &ToolCall, parent_model: &str) -> (r: Result<DelegatePlan, ToolResult>)
        ensures
            self.total_child_runs >= delegation_budget() ==> (r matches Err(e) && !e.success
                && e.content@ == budget_text()),
            self.total_child_runs < delegation_budget() && json_string_member(tc.arguments@, "prompt"@)
                is None ==> (r matches Err(e) && !e.success && e.content@ == missing_prompt_text()),
            self.total_child_runs < delegation_budget() ==> (json_string_member(tc.arguments@, "prompt"@)
                matches Some(p) ==> (r matches Ok(plan) && plan.prompt@ == p && plan.label@
                == member_or(tc.arguments@, "label"@, "subtask"@) && plan.workspace@ == member_or(
                tc.arguments@,
                "workspace"@,
                self.config.work_dir@,
            ) && plan.model@ == member_or(tc.arguments@, "model"@, parent_model@))),
    {
        if self.total_child_runs >= 10 {
            return Err(
                ToolResult {
                    success: false,
                    content: "Error: Max delegation budget (10 runs) reached inside the thread tree.".to_owned(),
                },
            );
        }
        let prompt = match str_member(tc.arguments.as_str(), "prompt") {
            Some(p) => p,
            None => {
                return Err(
                    ToolResult {
                        success: false,
                        content: "Error: Missing required argument 'prompt'.".to_owned(),
                    },
                );
            },
        };
        let label = match str_member(tc.arguments.as_str(), "label") {
            Some(v) => v,
            None => "subtask".to_owned(),
        };
        let workspace = match str_member(tc.arguments.as_str(), "workspace") {
            Some(v) => v,
            None => self.config.work_dir.clone(),
        };
        let model = match str_member(tc.arguments.as_str(), "model") {
            Some(v) => v,
            None => parent_model.to_owned(),
        };
        Ok(DelegatePlan { prompt, label, workspace, model })
    }

    /// The child agent: this agent's settings in the requested workspace,
    /// without task decomposition; one level deeper, one more run in the tree,
    /// no spawns of its own.
    pub fn spawn_child(&self, plan: &DelegatePlan, registry: ToolRegistry) -> (child: Agent)
        requires
            self.depth < usize::MAX,
            self.total_child_runs < usize::MAX,
        ensures
            child.config == (AgentConfig {
                work_dir: child.config.work_dir,
                enable_task_decomposition: false,
                ..self.config
            }),
            child.config.work_dir@ == plan.workspace@,
            child.tools() == registry.entries(),
            child.ctx() == Seq::<crate::providers::types::MsgView>::empty(),
            child.log() == Seq::<crate::agent::StepView>::empty(),
            child.depth == self.depth + 1,
            child.total_child_runs == self.total_child_runs + 1,
            child.spawn_count == 0,
            child.prompt_tokens == 0,
            child.completion_tokens == 0,
            child.allowed_tools is None,
    {
        let config = AgentConfig {
            max_iterations: self.config.max_iterations,
            work_dir: plan.workspace.clone(),
            enable_self_healing: self.config.enable_self_healing,
            enable_task_decomposition: false,
        };
        let mut child = Agent::new(config, registry);
        child.depth = self.depth + 1;
        child.total_child_runs = self.total_child_runs + 1;
        child.spawn_count = 0;
        child
    }

    /// Takes over the usage of a finished child: its token counts add to
    /// this agent's, and its run count becomes this agent's.
    pub fn absorb_child(&mut self, child: &Agent)
        requires
            old(self).prompt_tokens + child.prompt_tokens <= usize::MAX,
            old(self).completion_tokens + child.completion_tokens <= usize::MAX,
        ensures
            final(self).prompt_tokens == old(self).prompt_tokens + child.prompt_tokens,
            final(self).completion_tokens == old(self).completion_tokens + child.completion_tokens,
            final(self).total_child_runs == child.total_child_runs,
            final(self).context == old(self).context,
            final(self).steps == old(self).steps,
            final(self).config == old(self).config,
            final(self).tools() == old(self).tools(),
            final(self).allowed_tools == old(self).allowed_tools,
            final(self).spawn_count == old(self).spawn_count,
            final(self).depth == old(self).depth,
    {
        self.prompt_tokens = self.prompt_tokens + child.prompt_tokens;
        self.completion_tokens = self.completion_tokens + child.completion_tokens;
        self.total_child_runs = child.total_child_runs;
    }

    /// The parent's report of a child run (`Ok` with the child's answer, or
    /// `Err` with its error) that took `duration_ms`, with the status line to
    /// stream.
    pub fn delegation_outcome(
        &self,
        label: &str,
        outcome: &Result<String, String>,
        duration_ms: usize,
        child_prompt: usize,
        child_completion: usize,
    ) -> (r: (StreamChunk, ToolResult))
        ensures
            r.0@ == child_status(
                label@,
                match outcome {
                    Ok(a) => Ok(a@),
                    Err(e) => Err(e@),
                },
                duration_ms as nat,
                child_prompt as nat,
                child_completion as nat,
            ),
            r.1.success == outcome is Ok,
            outcome matches Ok(a) ==> r.1.content@ == child_success_text(
                a@,
                duration_ms as nat,
                spawn_warning(self.spawn_count as nat),
            ),
            outcome matches Err(e) ==> r.1.content@ == child_failure_text(
                e@,
                spawn_warning(self.spawn_count as nat),
            ),
    {
        let mut warning: Vec<char> = Vec::new();
        if self.spawn_count > 1 {
            append_str(
                &mut warning,
                "\n\n[Warning: Thread tree contains multiple child agent runs. Current parent spawn_count: ",
            );
            let d = decimal_chars(self.spawn_count);
            append_chars(&mut warning, &d);
            append_str(&mut warning, ". Please avoid redundant recursive calls.]");
        }
        assert(warning@ =~= spawn_warning(self.spawn_count as nat));
        let mut status: Vec<char> = Vec::new();
        let mut text: Vec<char> = Vec::new();
        append_str(&mut status, "[Delegation] Sub-agent '");
        append_str(&mut status, label);
        match outcome {
            Ok(answer) => {
                append_str(&mut status, "' completed successfully in ");
                let ms = decimal_chars(duration_ms);
                append_chars(&mut status, &ms);
                append_str(&mut status, "ms (used estimated ");
                let p = decimal_chars(child_prompt);
                append_chars(&mut status, &p);
                append_str(&mut status, " prompt, ");
                let c = decimal_chars(child_completion);
                append_chars(&mut status, &c);
                append_str(&mut status, " completion tokens)");
                append_str(&mut text, "Sub-agent completed target task successfully.\n\nFinal Summary:\n");
                append_str(&mut text, answer.as_str());
                append_str(&mut text, "\n\nExecution Time: ");
                append_chars(&mut text, &ms);
                append_str(&mut text, "ms");
                append_chars(&mut text, &warning);
                assert(status@ =~= "[Delegation] Sub-agent '"@ + label@ + "' completed successfully in "@ + decimal(duration_ms as nat)
                    + "ms (used estimated "@ + decimal(child_prompt as nat) + " prompt, "@ + decimal(child_completion as nat)
                    + " completion tokens)"@);
                assert(text@ =~= child_success_text(answer@, duration_ms as nat, spawn_warning(self.spawn_count as nat)));
                (
                    StreamChunk::StatusDelta { message: string_from_chars(&status) },
                    ToolResult { success: true, content: string_from_chars(&text) },
                )
            },
            Err(err) => {
                append_str(&mut status, "' failed: ");
                append_str(&mut status, err.as_str());
                append_str(&mut text, "Sub-agent execution encountered an error.\n\nError Details: ");
                append_str(&mut text, err.as_str());
                append_chars(&mut text, &warning);
                assert(status@ =~= "[Delegation] Sub-agent '"@ + label@ + "' failed: "@ + err@);
                assert(text@ =~= child_failure_text(err@, spawn_warning(self.spawn_count as nat)));
                (
                    StreamChunk::StatusDelta { message: string_from_chars(&status) },
                    ToolResult { success: false, content: string_from_chars(&text) },
                )
            },
        }
    }
}

/// The status line streamed when a child is spawned.
pub fn spawning_status(label: &str) -> (c: StreamChunk)
    ensures
        c@ == ChunkView::StatusDelta("[Delegation] Spawning sub-agent for '"@ + label@ + "'"@),
{
    let mut out: Vec<char> = Vec::new();
    append_str(&mut out, "[Delegation] Spawning sub-agent for '");
    append_str(&mut out, label);
    append_str(&mut out, "'");
    StreamChunk::StatusDelta { message: string_from_chars(&out) }
}

/// The isolated initial context of a child agent.
pub fn child_context(prompt: &str) -> (r: Vec<UnifiedMessage>)
    ensures
        msgs_view(r@) == seq![text_msg(MessageRole::User, child_prompt_text(prompt@))],
{
    let mut out: Vec<char> = Vec::new();
    append_str(
        &mut out,
        "[Task Delegation - 子沙盒运行]\n你是一个被委派的子智能体。你的目标是完成以下具体任务:\n\n任务指令: ",
    );
    append_str(&mut out, prompt);
    append_str(&mut out, "\n\n重要: 请在当前工作区独立完成该任务，并在结束时输出清晰的最终回答。");
    let m = UnifiedMessage::text(MessageRole::User, string_from_chars(&out));
    let mut r: Vec<UnifiedMessage> = Vec::new();
    r.push(m);
    assert(msgs_view(r@) =~= seq![text_msg(MessageRole::User, child_prompt_text(prompt@))]);
    r
}

} // verus!
