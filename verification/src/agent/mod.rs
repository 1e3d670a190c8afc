//! The tool-using agent: configuration, results, tool gating and routing.
pub mod task_decomposer;
pub mod compactor;
pub mod tool_registry;
pub mod run;
pub mod mcp_tools;
pub mod delegate;
pub mod decomposed;
pub mod gating;

use vstd::prelude::*;
use crate::providers::types::{MsgView, StreamChunk, UnifiedMessage, msgs_view};
use crate::text::{contains_seq, starts_with_seq, str_contains, str_starts_with};
use crate::tools::ToolResult;
use tool_registry::{DefView, ToolRegistry};

verus! {

/// Outcome of an agent run.
#[derive(Debug, Clone)]
pub struct AgentResult {
    pub success: bool,
    pub final_answer: String,
    pub iterations: usize,
    pub steps: Vec<AgentStep>,
}

/// One reasoning/acting step.
#[derive(Debug, Clone)]
pub struct AgentStep {
    pub iteration: usize,
    pub thought: String,
    pub action: Option<AgentAction>,
    pub observation: Option<String>,
}

/// A tool invocation made during a step; `arguments` is JSON text.
#[derive(Debug, Clone)]
pub struct AgentAction {
    pub tool_name: String,
    pub arguments: String,
    pub result: String,
    pub success: bool,
}

/// Agent settings.
#[derive(Debug, Clone)]
pub struct AgentConfig {
    pub max_iterations: usize,
    pub work_dir: String,
    pub enable_self_healing: bool,
    /// Split complex requests into sub-tasks first.
    pub enable_task_decomposition: bool,
}

impl Default for AgentConfig {
    fn default() -> (r: AgentConfig)
        ensures
            r.max_iterations == 15,
            r.work_dir@ == "."@,
            r.enable_self_healing,
            r.enable_task_decomposition,
    {
        AgentConfig {
            max_iterations: 15,
            work_dir: ".".to_owned(),
            enable_self_healing: true,
            enable_task_decomposition: true,
        }
    }
}

/// Abstract tool invocation.
pub ghost struct ActionView {
    pub tool_name: Seq<char>,
    pub arguments: Seq<char>,
    pub result: Seq<char>,
    pub success: bool,
}

impl View for AgentAction {
    type V = ActionView;

    open spec fn view(&self) -> ActionView {
        ActionView {
            tool_name: self.tool_name@,
            arguments: self.arguments@,
            result: self.result@,
            success: self.success,
        }
    }
}

/// Abstract step.
pub ghost struct StepView {
    pub iteration: nat,
    pub thought: Seq<char>,
    pub action: Option<ActionView>,
    pub observation: Option<Seq<char>>,
}

impl View for AgentStep {
    type V = StepView;

    open spec fn view(&self) -> StepView {
        StepView {
            iteration: self.iteration as nat,
            thought: self.thought@,
            action: match self.action {
                Some(a) => Some(a@),
                None => None,
            },
            observation: match self.observation {
                Some(o) => Some(o@),
                None => None,
            },
        }
    }
}

pub open spec fn actions_view(v: Seq<AgentAction>) -> Seq<ActionView> {
    v.map_values(|a: AgentAction| a@)
}

pub open spec fn steps_view(v: Seq<AgentStep>) -> Seq<StepView> {
    v.map_values(|s: AgentStep| s@)
}

/// Abstract run outcome.
pub ghost struct ResultView {
    pub success: bool,
    pub final_answer: Seq<char>,
    pub iterations: nat,
    pub steps: Seq<StepView>,
}

impl View for AgentResult {
    type V = ResultView;

    open spec fn view(&self) -> ResultView {
        ResultView {
            success: self.success,
            final_answer: self.final_answer@,
            iterations: self.iterations as nat,
            steps: steps_view(self.steps@),
        }
    }
}

/// A copy of an action.
pub fn clone_action(a: &AgentAction) -> (r: AgentAction)
    ensures
        r@ == a@,
{
    AgentAction {
        tool_name: a.tool_name.clone(),
        arguments: a.arguments.clone(),
        result: a.result.clone(),
        success: a.success,
    }
}

/// A copy of a step.
pub fn clone_step(s: &AgentStep) -> (r: AgentStep)
    ensures
        r@ == s@,
{
    let action = match &s.action {
        Some(a) => Some(clone_action(a)),
        None => None,
    };
    let observation = match &s.observation {
        Some(o) => Some(o.clone()),
        None => None,
    };
    AgentStep { iteration: s.iteration, thought: s.thought.clone(), action, observation }
}

/// A copy of a list of steps.
pub fn clone_steps(v: &Vec<AgentStep>) -> (r: Vec<AgentStep>)
    ensures
        steps_view(r@) == steps_view(v@),
{
    let mut r: Vec<AgentStep> = Vec::new();
    let mut i: usize = 0;
    while i < v.len()
        invariant
            i <= v.len(),
            r@.len() == i,
            steps_view(r@) == steps_view(v@).take(i as int),
        decreases v.len() - i,
    {
        let c = clone_step(&v[i]);
        r.push(c);
        i = i + 1;
        assert(steps_view(r@) =~= steps_view(v@).take(i as int));
    }
    assert(steps_view(v@).take(i as int) =~= steps_view(v@));
    r
}

/// Receiver of streaming events (the front-end channel, or nothing).
pub trait StreamSender {
    fn send(&self, chunk: StreamChunk) -> Result<(), String>;
}

/// A sender that drops every event.
#[derive(Clone)]
pub struct NoOpStreamSender;

impl StreamSender for NoOpStreamSender {
    /// Drops the event; sending never fails.
    fn send(&self, chunk: StreamChunk) -> (r: Result<(), String>)
        ensures
            r == Ok::<(), String>(()),
    {
        Ok(())
    }
}

/// The names of tools that stay allowed whatever the active skills permit:
/// the MCP catalogue tools and delegation.
pub open spec fn is_meta_tool(name: Seq<char>) -> bool {
    name == "mcp_search"@ || name == "mcp_describe"@ || name == "mcp_call"@
        || name == "mcp_refresh_catalog"@ || name == "delegate_task"@
}

pub open spec fn strings_view(v: Seq<String>) -> Seq<Seq<char>> {
    v.map_values(|s: String| s@)
}

pub open spec fn allowed_view(a: Option<Vec<String>>) -> Option<Seq<Seq<char>>> {
    match a {
        Some(v) => Some(strings_view(v@)),
        None => None,
    }
}

/// Tool gating: with no allow-list every tool may run; with one, a tool may
/// run when it is listed, when it is an MCP tool (`mcp_` prefix) whose name
/// without the prefix is listed, or when it is a meta tool.
pub open spec fn tool_allowed(allowed: Option<Seq<Seq<char>>>, name: Seq<char>) -> bool {
    match allowed {
        None => true,
        Some(list) => list.contains(name) || (starts_with_seq(name, "mcp_"@) && list.contains(
            name.skip(4),
        )) || is_meta_tool(name),
    }
}

/// Where a requested tool call goes.
#[derive(Debug, Clone, Copy, PartialEq, Eq, Structural)]
pub enum ToolRoute {
    /// Refused by the active allow-list.
    Blocked,
    /// Run a child agent.
    Delegate,
    /// Search the MCP catalogue.
    McpSearch,
    /// Describe one MCP tool.
    McpDescribe,
    /// Call an MCP tool named in the arguments.
    McpCall,
    /// Reload the MCP catalogue.
    McpRefresh,
    /// Run the MCP tool of that name on the configured servers.
    McpServer,
    /// Run a built-in tool.
    Builtin,
}

/// Routing of a tool call by name.
pub open spec fn route_of(allowed: Option<Seq<Seq<char>>>, name: Seq<char>) -> ToolRoute {
    if !tool_allowed(allowed, name) {
        ToolRoute::Blocked
    } else if name == "delegate_task"@ {
        ToolRoute::Delegate
    } else if name == "mcp_search"@ {
        ToolRoute::McpSearch
    } else if name == "mcp_describe"@ {
        ToolRoute::McpDescribe
    } else if name == "mcp_call"@ {
        ToolRoute::McpCall
    } else if name == "mcp_refresh_catalog"@ {
        ToolRoute::McpRefresh
    } else if starts_with_seq(name, "mcp_"@) {
        ToolRoute::McpServer
    } else {
        ToolRoute::Builtin
    }
}

/// The MCP catalogue tools and `delegate_task` are allowed under every
/// allow-list, and each is routed to its own handler, never blocked.
pub proof fn law_meta_tools_always_allowed(allowed: Option<Seq<Seq<char>>>)
    ensures
        tool_allowed(allowed, "mcp_search"@),
        tool_allowed(allowed, "mcp_describe"@),
        tool_allowed(allowed, "mcp_call"@),
        tool_allowed(allowed, "mcp_refresh_catalog"@),
        tool_allowed(allowed, "delegate_task"@),
        route_of(allowed, "mcp_search"@) == ToolRoute::McpSearch,
        route_of(allowed, "mcp_describe"@) == ToolRoute::McpDescribe,
        route_of(allowed, "mcp_call"@) == ToolRoute::McpCall,
        route_of(allowed, "mcp_refresh_catalog"@) == ToolRoute::McpRefresh,
        route_of(allowed, "delegate_task"@) == ToolRoute::Delegate,
{
    reveal_strlit("mcp_search");
    reveal_strlit("mcp_describe");
    reveal_strlit("mcp_call");
    reveal_strlit("mcp_refresh_catalog");
    reveal_strlit("delegate_task");
    assert("mcp_search"@.len() == 10);
    assert("mcp_describe"@.len() == 12);
    assert("mcp_call"@.len() == 8);
    assert("mcp_refresh_catalog"@.len() == 19);
    assert("delegate_task"@.len() == 13);
}

/// Text of the result given for a blocked tool.
pub open spec fn blocked_text(name: Seq<char>) -> Seq<char> {
    "Security Error: Tool '"@ + name
        + "' is blocked. This turn is gated by the active skills and only allowed tools can be executed."@
}

/// String equality on slices.
pub fn str_equal(a: &str, b: &str) -> (r: bool)
    ensures
        r == (a@ == b@),
{
    a.to_owned() == b.to_owned()
}

/// Whether the list holds a string equal to `s`.
pub fn list_contains(v: &Vec<String>, s: &str) -> (r: bool)
    ensures
        r == strings_view(v@).contains(s@),
{
    let mut i: usize = 0;
    while i < v.len()
        invariant
            i <= v.len(),
            forall|k: int| 0 <= k < i ==> v@[k]@ != s@,
        decreases v.len() - i,
    {
        if str_equal(v[i].as_str(), s) {
            assert(strings_view(v@)[i as int] == s@);
            return true;
        }
        i = i + 1;
    }
    assert forall|k: int| 0 <= k < strings_view(v@).len() implies strings_view(v@)[k] != s@ by {
        assert(strings_view(v@)[k] == v@[k]@);
    }
    false
}

/// The `ToolResult` given for a blocked tool.
pub fn blocked_result(name: &str) -> (r: ToolResult)
    ensures
        !r.success,
        r.content@ == blocked_text(name@),
{
    let mut t: Vec<char> = Vec::new();
    crate::text::append_str(&mut t, "Security Error: Tool '");
    crate::text::append_str(&mut t, name);
    crate::text::append_str(
        &mut t,
        "' is blocked. This turn is gated by the active skills and only allowed tools can be executed.",
    );
    ToolResult { success: false, content: crate::text::string_from_chars(&t) }
}

/// A tool-using agent with its conversation context and step log.
pub struct Agent {
    pub config: AgentConfig,
    pub tool_registry: ToolRegistry,
    pub context: Vec<UnifiedMessage>,
    pub steps: Vec<AgentStep>,
    pub depth: usize,
    pub spawn_count: usize,
    pub total_child_runs: usize,
    pub prompt_tokens: usize,
    pub completion_tokens: usize,
    /// Tools the active skills permit; `None` permits all.
    pub allowed_tools: Option<Vec<String>>,
}

impl Agent {
    /// The definitions in the tool registry.
    pub open spec fn tools(self) -> Seq<DefView> {
        self.tool_registry.entries()
    }

    /// The conversation context.
    pub open spec fn ctx(self) -> Seq<MsgView> {
        msgs_view(self.context@)
    }

    /// The step log.
    pub open spec fn log(self) -> Seq<StepView> {
        steps_view(self.steps@)
    }

    /// A fresh agent: empty context and log, all counters at zero, no
    /// allow-list.
    pub fn new(config: AgentConfig, tool_registry: ToolRegistry) -> (r: Agent)
        ensures
            r.config == config,
            r.tools() == tool_registry.entries(),
            r.ctx() == Seq::<MsgView>::empty(),
            r.log() == Seq::<StepView>::empty(),
            r.depth == 0,
            r.spawn_count == 0,
            r.total_child_runs == 0,
            r.prompt_tokens == 0,
            r.completion_tokens == 0,
            r.allowed_tools is None,
    {
        let r = Agent {
            config,
            tool_registry,
            context: Vec::new(),
            steps: Vec::new(),
            depth: 0,
            spawn_count: 0,
            total_child_runs: 0,
            prompt_tokens: 0,
            completion_tokens: 0,
            allowed_tools: None,
        };
        assert(r.ctx() =~= Seq::<MsgView>::empty());
        assert(r.log() =~= Seq::<StepView>::empty());
        r
    }

    /// Whether the active allow-list permits the tool.
    pub fn is_tool_allowed(&self, name: &str) -> (b: bool)
        ensures
            b == tool_allowed(allowed_view(self.allowed_tools), name@),
    {
        match &self.allowed_tools {
            None => true,
            Some(allowed) => {
                if list_contains(allowed, name) {
                    return true;
                }
                if str_starts_with(name, "mcp_") {
                    proof {
                        reveal_strlit("mcp_");
                    }
                    let cs = crate::text::str_chars(name);
                    let mut rest: Vec<char> = Vec::new();
                    let mut i: usize = 4;
                    while i < cs.len()
                        invariant
                            4 <= i <= cs.len(),
                            cs@ == name@,
                            rest@ == cs@.subrange(4, i as int),
                        decreases cs.len() - i,
                    {
                        rest.push(cs[i]);
                        i = i + 1;
                        assert(rest@ =~= cs@.subrange(4, i as int));
                    }
                    assert(rest@ =~= name@.skip(4));
                    let without = crate::text::string_from_chars(&rest);
                    if list_contains(allowed, without.as_str()) {
                        return true;
                    }
                }
                str_equal(name, "mcp_search") || str_equal(name, "mcp_describe") || str_equal(
                    name,
                    "mcp_call",
                ) || str_equal(name, "mcp_refresh_catalog") || str_equal(name, "delegate_task")
            },
        }
    }

    /// Where a call of the named tool goes.
    pub fn route_tool(&self, name: &str) -> (r: ToolRoute)
        ensures
            r == route_of(allowed_view(self.allowed_tools), name@),
    {
        if !self.is_tool_allowed(name) {
            ToolRoute::Blocked
        } else if str_equal(name, "delegate_task") {
            ToolRoute::Delegate
        } else if str_equal(name, "mcp_search") {
            ToolRoute::McpSearch
        } else if str_equal(name, "mcp_describe") {
            ToolRoute::McpDescribe
        } else if str_equal(name, "mcp_call") {
            ToolRoute::McpCall
        } else if str_equal(name, "mcp_refresh_catalog") {
            ToolRoute::McpRefresh
        } else if str_starts_with(name, "mcp_") {
            ToolRoute::McpServer
        } else {
            ToolRoute::Builtin
        }
    }
}

/// A request is complex (worth splitting into sub-tasks) when it contains one
/// of the multi-step keywords.
pub open spec fn is_complex(t: Seq<char>) -> bool {
    contains_seq(t, "并且"@) || contains_seq(t, "然后"@) || contains_seq(t, "接着"@)
        || contains_seq(t, "同时"@) || contains_seq(t, "以及"@) || contains_seq(t, "首先"@)
        || contains_seq(t, "第一步"@) || contains_seq(t, "第二步"@) || contains_seq(t, "先...再"@)
        || contains_seq(t, "先"@) || contains_seq(t, "再"@) || contains_seq(t, "做完"@)
        || contains_seq(t, "之后"@) || contains_seq(t, "然后再"@) || contains_seq(t, "多个文件"@)
        || contains_seq(t, "批量"@) || contains_seq(t, "所有文件"@) || contains_seq(t, "每个"@)
        || contains_seq(t, "遍历"@)
}

/// Whether a task needs decomposition: only explicit multi-step keywords count,
/// so that simple requests are not split.
pub fn is_complex_task(task: &str) -> (b: bool)
    ensures
        b == is_complex(task@),
{
    str_contains(task, "并且") || str_contains(task, "然后") || str_contains(task, "接着")
        || str_contains(task, "同时") || str_contains(task, "以及") || str_contains(task, "首先")
        || str_contains(task, "第一步") || str_contains(task, "第二步") || str_contains(
        task,
        "先...再",
    ) || str_contains(task, "先") || str_contains(task, "再") || str_contains(task, "做完")
        || str_contains(task, "之后") || str_contains(task, "然后再") || str_contains(
        task,
        "多个文件",
    ) || str_contains(task, "批量") || str_contains(task, "所有文件") || str_contains(task, "每个")
        || str_contains(task, "遍历")
}

} // verus!
