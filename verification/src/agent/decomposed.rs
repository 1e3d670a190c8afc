//! Running a request split into dependent sub-tasks: the prompt that asks for
//! the split, the reading of the model's answer, the bookkeeping of each
//! sub-task, and the final summary. The caller talks to the model.
use vstd::prelude::*;
use crate::agent::run::{answer_events, answer_chunks, call_events, text_deltas, text_msg};
use crate::agent::{allowed_view, tool_allowed};
use crate::providers::types::{CallView, ToolCall};
use crate::agent::task_decomposer::{Task, TaskStatus};
use crate::agent::{steps_view, clone_steps, Agent, AgentResult};
use crate::providers::types::{chunks_view, msgs_view, ChunkView, MessageRole, StreamChunk, UnifiedMessage};
use crate::text::{append_chars, append_str, decimal, decimal_chars, join, join_strings, str_chars, string_from_chars, views};
use crate::tools::ToolResult;
use crate::json::{array_error, array_len_at, index_pointer, json_array_error, json_array_len_at, json_str_at, pointer_to, str_at};
use crate::providers::types::opt_view;

verus! {

/// The prompt asking the model to split a request.
pub open spec fn decompose_prompt_text(user_task: Seq<char>) -> Seq<char> {
    "将以下任务分解为可独立执行的子任务。\n\n用户任务："@ + user_task
        + "\n\n要求：\n1. 每个子任务应该是原子操作（使用单个工具即可完成）\n2. 识别任务间的依赖关系\n3. 可以并行执行的任务不应有依赖关系\n\n请以 JSON 格式返回，格式如下：\n```json\n[\n  {\"id\": \"1\", \"description\": \"子任务描述\", \"dependencies\": []},\n  {\"id\": \"2\", \"description\": \"子任务描述\", \"dependencies\": [\"1\"]}\n]\n```\n\n只返回 JSON，不要其他内容。"@
}

/// Index of the first occurrence of `c`.
pub open spec fn first_index(s: Seq<char>, c: char) -> Option<int> {
    if exists|i: int| 0 <= i < s.len() && s[i] == c {
        Some(choose|i: int| 0 <= i < s.len() && s[i] == c && forall|k: int| 0 <= k < i ==> s[k] != c)
    } else {
        None
    }
}

/// Index of the last occurrence of `c`.
pub open spec fn last_index(s: Seq<char>, c: char) -> Option<int> {
    if exists|i: int| 0 <= i < s.len() && s[i] == c {
        Some(choose|i: int| 0 <= i < s.len() && s[i] == c && forall|k: int| i < k < s.len() ==> s[k] != c)
    } else {
        None
    }
}

/// The JSON array in the model's answer: from the first `[` to the last `]`,
/// or the whole answer when either bracket is missing.
pub open spec fn json_array_part(s: Seq<char>) -> Seq<char> {
    match (first_index(s, '['), last_index(s, ']')) {
        (Some(a), Some(b)) => s.subrange(a, b + 1),
        _ => s,
    }
}

/// The answer has a `]` somewhere before its first `[` and none after it
/// (the slice from the first `[` to the last `]` would be reversed).
pub open spec fn brackets_reversed(s: Seq<char>) -> bool {
    match (first_index(s, '['), last_index(s, ']')) {
        (Some(a), Some(b)) => b < a,
        _ => false,
    }
}

/// One sub-task as the model described it (`None` where a field was missing
/// or not a string).
pub struct TaskDef {
    pub id: Option<String>,
    pub description: Option<String>,
    /// The string entries of `dependencies`; `None` when it is not an array.
    pub dependencies: Option<Vec<String>>,
}

/// `t` is the pending task made from the description `d`: missing fields
/// become empty.
pub open spec fn made_from(t: Task, d: TaskDef) -> bool {
    &&& t.id@ == match d.id {
        Some(s) => s@,
        None => Seq::empty(),
    }
    &&& t.description@ == match d.description {
        Some(s) => s@,
        None => Seq::empty(),
    }
    &&& views(t.dependencies@) =~= match d.dependencies {
        Some(v) => views(v@),
        None => Seq::empty(),
    }
    &&& t.status == TaskStatus::Pending
    &&& t.result is None
}

/// The string entries among the first `n` elements of the array at `base`
/// in the value written in `json`, in order.
pub open spec fn string_entries(json: Seq<char>, base: Seq<char>, n: nat) -> Seq<Seq<char>>
    decreases n,
{
    if n == 0 {
        Seq::empty()
    } else {
        let rest = string_entries(json, base, (n - 1) as nat);
        match json_str_at(json, index_pointer(base, (n - 1) as nat, Seq::empty())) {
            Some(s) => rest.push(s),
            None => rest,
        }
    }
}

/// Element `i` of the array written in `json`, read as a sub-task: its
/// `id` and `description` strings and the string entries of its
/// `dependencies` array.
pub open spec fn def_read_from(d: TaskDef, json: Seq<char>, i: nat) -> bool {
    let deps = index_pointer(Seq::empty(), i, "/dependencies"@);
    &&& opt_view(d.id) == json_str_at(json, index_pointer(Seq::empty(), i, "/id"@))
    &&& opt_view(d.description) == json_str_at(json, index_pointer(Seq::empty(), i, "/description"@))
    &&& match d.dependencies {
        None => json_array_len_at(json, deps) is None,
        Some(v) => json_array_len_at(json, deps) matches Some(n) && views(v@) == string_entries(json, deps, n),
    }
}

/// The sub-tasks read from the elements of the array written in `json`.
pub open spec fn defs_read_from(defs: Seq<TaskDef>, json: Seq<char>) -> bool {
    &&& defs.len() == match json_array_len_at(json, Seq::empty()) {
        Some(n) => n,
        None => 0,
    }
    &&& forall|i: int| 0 <= i < defs.len() ==> def_read_from(#[trigger] defs[i], json, i as nat)
}

fn string_entries_of(json: &str, base: &str, n: usize) -> (r: Vec<String>)
    ensures
        views(r@) == string_entries(json@, base@, n as nat),
{
    let mut r: Vec<String> = Vec::new();
    let mut k: usize = 0;
    while k < n
        invariant
            k <= n,
            views(r@) == string_entries(json@, base@, k as nat),
        decreases n - k,
    {
        let pk = pointer_to(base, k, "");
        proof {
            reveal_strlit("");
        }
        assert(pk@ == index_pointer(base@, k as nat, Seq::empty()));
        match str_at(json, pk.as_str()) {
            Some(s) => {
                let ghost before = r@;
                r.push(s);
                assert(views(r@) =~= views(before).push(r@.last()@));
            },
            None => {},
        }
        k = k + 1;
    }
    r
}

/// Reads the sub-tasks from the elements of the array written in `json`.
pub fn task_defs(json: &str) -> (r: Vec<TaskDef>)
    ensures
        defs_read_from(r@, json@),
{
    proof {
        reveal_strlit("");
    }
    assert(""@ =~= Seq::<char>::empty());
    let n = match array_len_at(json, "") {
        Some(n) => n,
        None => 0,
    };
    let mut r: Vec<TaskDef> = Vec::new();
    let mut i: usize = 0;
    while i < n
        invariant
            i <= n,
            n == match json_array_len_at(json@, Seq::empty()) {
                Some(m) => m,
                None => 0,
            },
            r@.len() == i,
            forall|k: int| 0 <= k < i ==> def_read_from(#[trigger] r@[k], json@, k as nat),
        decreases n - i,
    {
        proof {
            reveal_strlit("");
        }
        assert(""@ =~= Seq::<char>::empty());
        let pid = pointer_to("", i, "/id");
        let pdesc = pointer_to("", i, "/description");
        let pdeps = pointer_to("", i, "/dependencies");
        let dependencies = match array_len_at(json, pdeps.as_str()) {
            Some(m) => Some(string_entries_of(json, pdeps.as_str(), m)),
            None => None,
        };
        let d = TaskDef { id: str_at(json, pid.as_str()), description: str_at(json, pdesc.as_str()), dependencies };
        assert(def_read_from(d, json@, i as nat));
        let ghost before = r@;
        r.push(d);
        assert forall|k: int| 0 <= k <= i implies def_read_from(#[trigger] r@[k], json@, k as nat) by {
            if k < i {
                assert(r@[k] == before[k]);
            }
        }
        i = i + 1;
    }
    r
}

/// The sub-tasks of the model's answer: the JSON array cut out of it, read
/// element by element, or the parse error when it is no JSON array.
pub fn tasks_from_response(response: &str) -> (r: Result<Vec<Task>, String>)
    requires
        !brackets_reversed(response@),
    ensures
        json_array_error(json_array_part(response@)) matches Some(e) ==> (r matches Err(m) && m@
            == "解析任务失败: "@ + e),
        json_array_error(json_array_part(response@)) is None ==> (r matches Ok(ts) && exists|defs: Seq<TaskDef>|
            #[trigger] defs_read_from(defs, json_array_part(response@)) && ts@.len() == defs.len()
                && forall|i: int| 0 <= i < ts@.len() ==> made_from(ts@[i], #[trigger] defs[i])),
{
    let json = extract_json_array(response);
    match array_error(json.as_str()) {
        Some(e) => {
            let mut out: Vec<char> = Vec::new();
            append_str(&mut out, "解析任务失败: ");
            append_str(&mut out, e.as_str());
            Err(string_from_chars(&out))
        },
        None => {
            let defs = task_defs(json.as_str());
            let ts = tasks_from_defs(&defs);
            assert(defs_read_from(defs@, json_array_part(response@)));
            Ok(ts)
        },
    }
}

/// Word for a task's state in the summary.
pub open spec fn status_word(s: TaskStatus) -> Seq<char> {
    match s {
        TaskStatus::Completed => "完成"@,
        TaskStatus::Failed => "失败"@,
        _ => "未完成"@,
    }
}

/// Summary of task `i` (numbered from one).
pub open spec fn task_summary(i: nat, t: Task) -> Seq<char> {
    "子任务 "@ + decimal(i + 1) + ": "@ + t.description@ + "\n状态: "@ + status_word(t.status)
        + "\n结果: "@ + match t.result {
        Some(r) => r@,
        None => "无"@,
    }
}

/// Summaries of all tasks, separated by blank lines.
pub open spec fn subtask_summary_text(ts: Seq<Task>) -> Seq<char> {
    join(Seq::new(ts.len(), |i: int| task_summary(i as nat, ts[i])), "\n\n"@)
}

/// The request that turns the sub-task results into one answer.
pub open spec fn summary_prompt_text(user_task: Seq<char>, summary: Seq<char>) -> Seq<char> {
    "以下是多个子任务的执行结果。请根据这些结果，用自然语言回答用户的原始需求。\n\n原始需求: "@ + user_task
        + "\n\n子任务执行结果:\n"@ + summary
        + "\n\n请综合以上信息，给出一个完整、清晰的回答。直接回答，不要提及\"子任务\"或执行过程。"@
}

/// Answer given when the final summary could not be produced.
pub open spec fn fallback_text(summary: Seq<char>) -> Seq<char> {
    "任务执行完成，以下是各子任务结果：\n\n"@ + summary
}

/// Some task is neither completed nor failed.
pub open spec fn has_unfinished(ts: Seq<Task>) -> bool {
    exists|i: int| 0 <= i < ts.len() && ts[i].status != TaskStatus::Completed && ts[i].status != TaskStatus::Failed
}

/// Index of the first task with the given id.
pub open spec fn index_of_id(ts: Seq<Task>, id: Seq<char>) -> Option<int> {
    if exists|i: int| 0 <= i < ts.len() && ts[i].id@ == id {
        Some(choose|i: int| 0 <= i < ts.len() && ts[i].id@ == id && forall|k: int| 0 <= k < i ==> ts[k].id@ != id)
    } else {
        None
    }
}

/// Status line of a sub-task that starts (first 40 characters of its text).
pub open spec fn subtask_status(desc: Seq<char>) -> ChunkView {
    ChunkView::StatusDelta("执行子任务: "@ + desc.take(if desc.len() < 40 { desc.len() as int } else { 40 }))
}

/// The prompt asking the model to split `user_task` into sub-tasks.
pub fn decompose_prompt(user_task: &str) -> (r: Vec<UnifiedMessage>)
    ensures
        msgs_view(r@) == seq![text_msg(MessageRole::User, decompose_prompt_text(user_task@))],
{
    let mut out: Vec<char> = Vec::new();
    append_str(&mut out, "将以下任务分解为可独立执行的子任务。\n\n用户任务：");
    append_str(&mut out, user_task);
    append_str(
        &mut out,
        "\n\n要求：\n1. 每个子任务应该是原子操作（使用单个工具即可完成）\n2. 识别任务间的依赖关系\n3. 可以并行执行的任务不应有依赖关系\n\n请以 JSON 格式返回，格式如下：\n```json\n[\n  {\"id\": \"1\", \"description\": \"子任务描述\", \"dependencies\": []},\n  {\"id\": \"2\", \"description\": \"子任务描述\", \"dependencies\": [\"1\"]}\n]\n```\n\n只返回 JSON，不要其他内容。",
    );
    let mut r: Vec<UnifiedMessage> = Vec::new();
    r.push(UnifiedMessage::text(MessageRole::User, string_from_chars(&out)));
    assert(msgs_view(r@) =~= seq![text_msg(MessageRole::User, decompose_prompt_text(user_task@))]);
    r
}

/// The JSON array part of the model's answer to `decompose_prompt`.
pub fn extract_json_array(response: &str) -> (r: String)
    requires
        !brackets_reversed(response@),
    ensures
        r@ == json_array_part(response@),
{
    let cs = str_chars(response);
    let n = cs.len();
    let mut first: Option<usize> = None;
    let mut i: usize = 0;
    while i < n
        invariant
            n == cs@.len(),
            cs@ == response@,
            i <= n,
            first is None ==> forall|k: int| 0 <= k < i ==> cs@[k] != '[',
            first matches Some(a) ==> a < n && cs@[a as int] == '[' && forall|k: int| 0 <= k < a ==> cs@[k] != '[',
        decreases n - i,
    {
        if first.is_none() && cs[i] == '[' {
            first = Some(i);
        }
        i = i + 1;
    }
    let mut last: Option<usize> = None;
    let mut j: usize = n;
    while j > 0
        invariant
            n == cs@.len(),
            cs@ == response@,
            j <= n,
            last is None ==> forall|k: int| j <= k < n ==> cs@[k] != ']',
            last matches Some(b) ==> b < n && cs@[b as int] == ']' && forall|k: int| b < k < n ==> cs@[k] != ']',
        decreases j,
    {
        if last.is_none() && cs[j - 1] == ']' {
            last = Some(j - 1);
        }
        j = j - 1;
    }
    proof {
        match first {
            Some(a) => {
                assert(first_index(response@, '[') == Some(a as int)) by {
                    let w = choose|w: int| 0 <= w < response@.len() && response@[w] == '[' && forall|k: int| 0 <= k < w ==> response@[k] != '[';
                    assert(0 <= w < response@.len() && response@[w] == '[' && forall|k: int| 0 <= k < w ==> response@[k] != '[');
                    assert(w == a);
                }
            },
            None => {},
        }
        match last {
            Some(b) => {
                assert(last_index(response@, ']') == Some(b as int)) by {
                    let w = choose|w: int| 0 <= w < response@.len() && response@[w] == ']' && forall|k: int| w < k < response@.len() ==> response@[k] != ']';
                    assert(0 <= w < response@.len() && response@[w] == ']' && forall|k: int| w < k < response@.len() ==> response@[k] != ']');
                    assert(w == b);
                }
            },
            None => {},
        }
    }
    match (first, last) {
        (Some(a), Some(b)) => {
            let mut out: Vec<char> = Vec::new();
            let mut k: usize = a;
            while k <= b
                invariant
                    a <= k <= b + 1,
                    b < n,
                    n == cs@.len(),
                    out@ == cs@.subrange(a as int, k as int),
                decreases b + 1 - k,
            {
                out.push(cs[k]);
                k = k + 1;
                assert(out@ =~= cs@.subrange(a as int, k as int));
            }
            string_from_chars(&out)
        },
        _ => response.to_owned(),
    }
}

fn clone_strings(v: &Vec<String>) -> (r: Vec<String>)
    ensures
        r@ == v@,
{
    let mut r: Vec<String> = Vec::new();
    let mut i: usize = 0;
    while i < v.len()
        invariant
            i <= v.len(),
            r@ == v@.take(i as int),
        decreases v.len() - i,
    {
        r.push(v[i].clone());
        i = i + 1;
        assert(r@ =~= v@.take(i as int));
    }
    assert(v@.take(i as int) =~= v@);
    r
}

/// The pending tasks described by the model, in order; missing fields become
/// empty.
pub fn tasks_from_defs(defs: &Vec<TaskDef>) -> (r: Vec<Task>)
    ensures
        r@.len() == defs@.len(),
        forall|i: int| 0 <= i < r@.len() ==> made_from(r@[i], #[trigger] defs@[i]),
{
    let mut r: Vec<Task> = Vec::new();
    let mut i: usize = 0;
    while i < defs.len()
        invariant
            i <= defs.len(),
            r@.len() == i,
            forall|k: int| 0 <= k < i ==> made_from(r@[k], #[trigger] defs@[k]),
        decreases defs.len() - i,
    {
        let d = &defs[i];
        let id = match &d.id {
            Some(s) => s.clone(),
            None => String::new(),
        };
        let description = match &d.description {
            Some(s) => s.clone(),
            None => String::new(),
        };
        let dependencies = match &d.dependencies {
            Some(v) => clone_strings(v),
            None => Vec::new(),
        };
        let t = Task { id, description, status: TaskStatus::Pending, dependencies, result: None };
        assert(made_from(t, defs@[i as int]));
        r.push(t);
        i = i + 1;
    }
    r
}

/// Whether some task is still neither completed nor failed.
pub fn any_unfinished(tasks: &Vec<Task>) -> (b: bool)
    ensures
        b == has_unfinished(tasks@),
{
    let mut i: usize = 0;
    while i < tasks.len()
        invariant
            i <= tasks@.len(),
            forall|k: int| 0 <= k < i ==> tasks@[k].status == TaskStatus::Completed || tasks@[k].status
                == TaskStatus::Failed,
        decreases tasks.len() - i,
    {
        if tasks[i].status != TaskStatus::Completed && tasks[i].status != TaskStatus::Failed {
            return true;
        }
        i = i + 1;
    }
    false
}

/// Index of the first task with the given id.
pub fn find_task(tasks: &Vec<Task>, id: &String) -> (r: Option<usize>)
    ensures
        match r {
            Some(i) => index_of_id(tasks@, id@) == Some(i as int),
            None => index_of_id(tasks@, id@) is None,
        },
{
    let mut i: usize = 0;
    while i < tasks.len()
        invariant
            i <= tasks@.len(),
            forall|k: int| 0 <= k < i ==> tasks@[k].id@ != id@,
        decreases tasks.len() - i,
    {
        if tasks[i].id == *id {
            proof {
                let w = choose|w: int| 0 <= w < tasks@.len() && tasks@[w].id@ == id@ && forall|k: int| 0 <= k < w ==> tasks@[k].id@ != id@;
                assert(0 <= w < tasks@.len() && tasks@[w].id@ == id@ && forall|k: int| 0 <= k < w ==> tasks@[k].id@ != id@);
                assert(w == i);
            }
            return Some(i);
        }
        i = i + 1;
    }
    None
}

/// Starts task `idx`: it becomes running; returns the isolated context it
/// is sent with (its description as the only user message) and the status
/// line to stream.
pub fn begin_subtask(tasks: &mut Vec<Task>, idx: usize) -> (r: (Vec<UnifiedMessage>, StreamChunk))
    requires
        idx < old(tasks)@.len(),
    ensures
        final(tasks)@ == old(tasks)@.update(idx as int, Task { status: TaskStatus::Running, ..old(tasks)@[idx as int] }),
        msgs_view(r.0@) == seq![text_msg(MessageRole::User, old(tasks)@[idx as int].description@)],
        r.1@ == subtask_status(old(tasks)@[idx as int].description@),
{
    let mut t = tasks.remove(idx);
    t.status = TaskStatus::Running;
    let desc = t.description.clone();
    tasks.insert(idx, t);
    assert(tasks@ =~= old(tasks)@.update(idx as int, Task { status: TaskStatus::Running, ..old(tasks)@[idx as int] }));
    let cs = str_chars(desc.as_str());
    let lim = if cs.len() < 40 { cs.len() } else { 40 };
    let mut out: Vec<char> = Vec::new();
    append_str(&mut out, "执行子任务: ");
    let ghost head = out@;
    let mut k: usize = 0;
    while k < lim
        invariant
            k <= lim <= cs@.len(),
            out@ == head + cs@.take(k as int),
        decreases lim - k,
    {
        out.push(cs[k]);
        k = k + 1;
        assert(out@ =~= head + cs@.take(k as int));
    }
    let mut ctx: Vec<UnifiedMessage> = Vec::new();
    ctx.push(UnifiedMessage::text(MessageRole::User, desc));
    assert(msgs_view(ctx@) =~= seq![text_msg(MessageRole::User, old(tasks)@[idx as int].description@)]);
    (ctx, StreamChunk::StatusDelta { message: string_from_chars(&out) })
}

/// A tool of task `idx` finished: the task takes its output and completes
/// or fails with it; the output joins the collected results.
pub fn subtask_tool_done(tasks: &mut Vec<Task>, idx: usize, result: &ToolResult, results: &mut Vec<String>)
    requires
        idx < old(tasks)@.len(),
    ensures
        final(tasks)@.len() == old(tasks)@.len(),
        forall|k: int| 0 <= k < old(tasks)@.len() && k != idx ==> final(tasks)@[k] == old(tasks)@[k],
        final(tasks)@[idx as int].id == old(tasks)@[idx as int].id,
        final(tasks)@[idx as int].description == old(tasks)@[idx as int].description,
        final(tasks)@[idx as int].dependencies == old(tasks)@[idx as int].dependencies,
        final(tasks)@[idx as int].status == if result.success { TaskStatus::Completed } else { TaskStatus::Failed },
        final(tasks)@[idx as int].result matches Some(s) && s@ == result.content@,
        views(final(results)@) == views(old(results)@).push(result.content@),
{
    let mut t = tasks.remove(idx);
    t.status = if result.success { TaskStatus::Completed } else { TaskStatus::Failed };
    t.result = Some(result.content.clone());
    tasks.insert(idx, t);
    results.push(result.content.clone());
    assert(views(results@) =~= views(old(results)@).push(result.content@));
}

/// Task `idx` got a text answer: it completes with it; the answer joins the
/// collected results.
pub fn subtask_answered(tasks: &mut Vec<Task>, idx: usize, text: String, results: &mut Vec<String>)
    requires
        idx < old(tasks)@.len(),
    ensures
        final(tasks)@.len() == old(tasks)@.len(),
        forall|k: int| 0 <= k < old(tasks)@.len() && k != idx ==> final(tasks)@[k] == old(tasks)@[k],
        final(tasks)@[idx as int].id == old(tasks)@[idx as int].id,
        final(tasks)@[idx as int].description == old(tasks)@[idx as int].description,
        final(tasks)@[idx as int].dependencies == old(tasks)@[idx as int].dependencies,
        final(tasks)@[idx as int].status == TaskStatus::Completed,
        final(tasks)@[idx as int].result matches Some(s) && s@ == text@,
        views(final(results)@) == views(old(results)@).push(text@),
{
    let mut t = tasks.remove(idx);
    t.status = TaskStatus::Completed;
    t.result = Some(text.clone());
    tasks.insert(idx, t);
    results.push(text);
    assert(views(results@) =~= views(old(results)@).push(text@));
}

/// The model could not be reached for task `idx`: it fails with the error.
pub fn subtask_failed(tasks: &mut Vec<Task>, idx: usize, err: &str)
    requires
        idx < old(tasks)@.len(),
    ensures
        final(tasks)@.len() == old(tasks)@.len(),
        forall|k: int| 0 <= k < old(tasks)@.len() && k != idx ==> final(tasks)@[k] == old(tasks)@[k],
        final(tasks)@[idx as int].id == old(tasks)@[idx as int].id,
        final(tasks)@[idx as int].description == old(tasks)@[idx as int].description,
        final(tasks)@[idx as int].dependencies == old(tasks)@[idx as int].dependencies,
        final(tasks)@[idx as int].status == TaskStatus::Failed,
        final(tasks)@[idx as int].result matches Some(s) && s@ == "失败: "@ + err@,
{
    let mut out: Vec<char> = Vec::new();
    append_str(&mut out, "失败: ");
    append_str(&mut out, err);
    let mut t = tasks.remove(idx);
    t.status = TaskStatus::Failed;
    t.result = Some(string_from_chars(&out));
    tasks.insert(idx, t);
}

/// Summary of all sub-tasks: number, description, state and result of each.
pub fn subtask_summary(tasks: &Vec<Task>) -> (r: String)
    ensures
        r@ == subtask_summary_text(tasks@),
{
    let ghost want = Seq::new(tasks@.len(), |i: int| task_summary(i as nat, tasks@[i]));
    let mut parts: Vec<String> = Vec::new();
    let mut i: usize = 0;
    while i < tasks.len()
        invariant
            i <= tasks@.len(),
            want == Seq::new(tasks@.len(), |i: int| task_summary(i as nat, tasks@[i])),
            parts@.len() == i,
            views(parts@) == want.take(i as int),
        decreases tasks.len() - i,
    {
        let mut out: Vec<char> = Vec::new();
        append_str(&mut out, "子任务 ");
        let d = decimal_chars(i + 1);
        append_chars(&mut out, &d);
        append_str(&mut out, ": ");
        append_str(&mut out, tasks[i].description.as_str());
        append_str(&mut out, "\n状态: ");
        match tasks[i].status {
            TaskStatus::Completed => append_str(&mut out, "完成"),
            TaskStatus::Failed => append_str(&mut out, "失败"),
            _ => append_str(&mut out, "未完成"),
        }
        append_str(&mut out, "\n结果: ");
        match &tasks[i].result {
            Some(r) => append_str(&mut out, r.as_str()),
            None => append_str(&mut out, "无"),
        }
        assert(out@ =~= task_summary(i as nat, tasks@[i as int]));
        parts.push(string_from_chars(&out));
        i = i + 1;
        assert(views(parts@) =~= want.take(i as int));
    }
    assert(want.take(i as int) =~= want);
    join_strings(&parts, "\n\n")
}

/// The request that asks the model for the final answer from the summary.
pub fn summary_prompt(user_task: &str, summary: &str) -> (r: Vec<UnifiedMessage>)
    ensures
        msgs_view(r@) == seq![text_msg(MessageRole::User, summary_prompt_text(user_task@, summary@))],
{
    let mut out: Vec<char> = Vec::new();
    append_str(&mut out, "以下是多个子任务的执行结果。请根据这些结果，用自然语言回答用户的原始需求。\n\n原始需求: ");
    append_str(&mut out, user_task);
    append_str(&mut out, "\n\n子任务执行结果:\n");
    append_str(&mut out, summary);
    append_str(&mut out, "\n\n请综合以上信息，给出一个完整、清晰的回答。直接回答，不要提及\"子任务\"或执行过程。");
    let mut r: Vec<UnifiedMessage> = Vec::new();
    r.push(UnifiedMessage::text(MessageRole::User, string_from_chars(&out)));
    assert(msgs_view(r@) =~= seq![text_msg(MessageRole::User, summary_prompt_text(user_task@, summary@))]);
    r
}

/// Status line streamed while the final answer is produced.
pub fn summarizing_status() -> (c: StreamChunk)
    ensures
        c@ == ChunkView::StatusDelta("汇总子任务结果中"@),
{
    StreamChunk::StatusDelta { message: "汇总子任务结果中".to_owned() }
}

impl Agent {
    /// The decomposed run ends with the model's final answer: it is streamed,
    /// and the run succeeds with one iteration per task.
    pub fn decomposed_answer(&self, answer: String, task_count: usize) -> (r: (Vec<StreamChunk>, AgentResult))
        ensures
            chunks_view(r.0@) == answer_events(answer@),
            r.1.success,
            r.1.final_answer@ == answer@,
            r.1.iterations == task_count,
            steps_view(r.1.steps@) == self.log(),
    {
        let chunks = answer_chunks(answer.as_str());
        (chunks, AgentResult { success: true, final_answer: answer, iterations: task_count, steps: clone_steps(&self.steps) })
    }

    /// The final answer could not be produced: the summary itself is streamed
    /// and returned, followed by the error, and the run does not succeed.
    pub fn decomposed_fallback(&self, summary: &str, err: &str, task_count: usize) -> (r: (Vec<StreamChunk>, AgentResult))
        ensures
            chunks_view(r.0@) == text_deltas(fallback_text(summary@)).push(
                ChunkView::Error("摘要生成失败: "@ + err@),
            ),
            !r.1.success,
            r.1.final_answer@ == fallback_text(summary@),
            r.1.iterations == task_count,
            steps_view(r.1.steps@) == self.log(),
    {
        let mut out: Vec<char> = Vec::new();
        append_str(&mut out, "任务执行完成，以下是各子任务结果：\n\n");
        append_str(&mut out, summary);
        let text = string_from_chars(&out);
        let mut chunks = answer_chunks(text.as_str());
        let ghost full = chunks@;
        chunks.pop();
        assert(chunks_view(full) == answer_events(text@));
        assert(full.len() == chunks_view(full).len());
        assert(chunks@ =~= full.drop_last());
        assert(chunks_view(chunks@) =~= chunks_view(full).drop_last());
        assert(chunks_view(chunks@) =~= text_deltas(text@));
        let mut e: Vec<char> = Vec::new();
        append_str(&mut e, "摘要生成失败: ");
        append_str(&mut e, err);
        chunks.push(StreamChunk::Error { message: string_from_chars(&e) });
        assert(chunks_view(chunks@) =~= text_deltas(fallback_text(summary@)).push(
            ChunkView::Error("摘要生成失败: "@ + err@),
        ));
        (chunks, AgentResult { success: false, final_answer: text, iterations: task_count, steps: clone_steps(&self.steps) })
    }
}

/// Where a tool call of a sub-task goes: refused by the allow-list, to the
/// MCP servers (`mcp_` prefix), or to the built-in tools.
#[derive(Debug, Clone, Copy, PartialEq, Eq, Structural)]
pub enum SubtaskRoute {
    Blocked,
    Mcp,
    Builtin,
}

/// The route of a sub-task's tool call.
pub open spec fn subtask_route_of(allowed: Option<Seq<Seq<char>>>, name: Seq<char>) -> SubtaskRoute {
    if !tool_allowed(allowed, name) {
        SubtaskRoute::Blocked
    } else if crate::text::starts_with_seq(name, "mcp_"@) {
        SubtaskRoute::Mcp
    } else {
        SubtaskRoute::Builtin
    }
}

impl Agent {
    /// Routes a tool call made while running a sub-task.
    pub fn subtask_route(&self, name: &str) -> (r: SubtaskRoute)
        ensures
            r == subtask_route_of(allowed_view(self.allowed_tools), name@),
    {
        if !self.is_tool_allowed(name) {
            SubtaskRoute::Blocked
        } else if crate::text::str_starts_with(name, "mcp_") {
            SubtaskRoute::Mcp
        } else {
            SubtaskRoute::Builtin
        }
    }
}

/// The events that report a sub-task's tool call: its start, its arguments
/// and its end.
pub fn subtask_call_events(tc: &ToolCall) -> (r: Vec<StreamChunk>)
    ensures
        chunks_view(r@) == call_events(seq![tc@]),
{
    let mut r: Vec<StreamChunk> = Vec::new();
    r.push(StreamChunk::ToolCallStart { id: tc.id.clone(), name: tc.name.clone() });
    r.push(StreamChunk::ToolCallDelta { id: tc.id.clone(), arguments_delta: tc.arguments.clone() });
    r.push(StreamChunk::ToolCallEnd { id: tc.id.clone() });
    proof {
        let cs = seq![tc@];
        assert(cs.drop_last() =~= Seq::<CallView>::empty());
        assert(call_events(cs.drop_last()) == Seq::<ChunkView>::empty());
        assert(cs.last() == tc@);
        assert(chunks_view(r@) =~= call_events(cs));
    }
    r
}

/// The event that reports a sub-task's tool result.
pub fn subtask_result_event(tc: &ToolCall, result: &ToolResult) -> (c: StreamChunk)
    ensures
        c@ == ChunkView::ToolResult(tc.id@, tc.name@, result.success, result.content@),
{
    StreamChunk::ToolResult {
        call_id: tc.id.clone(),
        name: tc.name.clone(),
        success: result.success,
        content: result.content.clone(),
    }
}

} // verus!
