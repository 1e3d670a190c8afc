//! The MCP catalogue tools (`mcp_search`, `mcp_describe`, `mcp_call`,
//! `mcp_refresh_catalog`) and the report of a failed MCP tool run.
use vstd::prelude::*;
use crate::agent::tool_registry::{is_mcp_name, DefView};
use crate::agent::Agent;
use crate::json::{json_member_text, json_pretty, json_string_member, member_text, pretty, str_member};
use crate::providers::types::{CallView, ToolCall};
use crate::text::{
    append_chars, append_str, contains_seq, decimal, decimal_chars, join, str_contains,
    str_starts_with, string_from_chars, to_lowercase, lowercase, views,
};
use crate::tools::ToolResult;

verus! {

/// A catalogue entry that matched a search.
pub ghost struct HitView {
    pub name: Seq<char>,
    pub description: Seq<char>,
    pub score: nat,
}

/// The query asks to find something.
pub open spec fn find_words(q: Seq<char>) -> bool {
    contains_seq(q, "find"@) || contains_seq(q, "search"@) || contains_seq(q, "查找"@)
        || contains_seq(q, "搜索"@)
}

/// The query asks to change something.
pub open spec fn update_words(q: Seq<char>) -> bool {
    contains_seq(q, "update"@) || contains_seq(q, "modify"@) || contains_seq(q, "edit"@)
        || contains_seq(q, "修改"@) || contains_seq(q, "编辑"@)
}

/// The query and its synonyms.
pub open spec fn expanded_queries(q: Seq<char>) -> Seq<Seq<char>> {
    seq![q] + (if find_words(q) {
        seq!["find"@, "search"@, "get"@]
    } else {
        Seq::empty()
    }) + (if update_words(q) {
        seq!["update"@, "modify"@, "edit"@, "write"@]
    } else {
        Seq::empty()
    })
}

/// Points a tool earns for one query word: 5 for its name, 1 for its
/// description, 2 for its parameter schema (all compared in lower case).
pub open spec fn word_points(d: DefView, q: Seq<char>) -> nat {
    (if contains_seq(lowercase(d.name), q) {
        5nat
    } else {
        0nat
    }) + (if contains_seq(lowercase(d.description), q) {
        1nat
    } else {
        0nat
    }) + (if contains_seq(lowercase(d.parameters), q) {
        2nat
    } else {
        0nat
    })
}

/// Total points of a tool over the query words.
pub open spec fn tool_score(d: DefView, qs: Seq<Seq<char>>) -> nat
    decreases qs.len(),
{
    if qs.len() == 0 {
        0
    } else {
        tool_score(d, qs.drop_last()) + word_points(d, qs.last())
    }
}

/// MCP tools with at least one point, in catalogue order.
pub open spec fn hits(entries: Seq<DefView>, qs: Seq<Seq<char>>) -> Seq<HitView>
    decreases entries.len(),
{
    if entries.len() == 0 {
        Seq::empty()
    } else {
        let d = entries.last();
        let rest = hits(entries.drop_last(), qs);
        if is_mcp_name(d.name) && tool_score(d, qs) >= 1 {
            rest.push(HitView { name: d.name, description: d.description, score: tool_score(d, qs) })
        } else {
            rest
        }
    }
}

/// The hits with exactly `s` points, in order.
pub open spec fn with_score(hs: Seq<HitView>, s: nat) -> Seq<HitView>
    decreases hs.len(),
{
    if hs.len() == 0 {
        Seq::empty()
    } else if hs.last().score == s {
        with_score(hs.drop_last(), s).push(hs.last())
    } else {
        with_score(hs.drop_last(), s)
    }
}

/// The hits with `s` points, then those with `s - 1`, down to one point.
pub open spec fn ranked_from(hs: Seq<HitView>, s: nat) -> Seq<HitView>
    decreases s,
{
    if s == 0 {
        Seq::empty()
    } else {
        with_score(hs, s) + ranked_from(hs, (s - 1) as nat)
    }
}

/// Hits by descending score, ties in catalogue order (a score never exceeds
/// 64: at most eight words of at most eight points).
pub open spec fn ranked(hs: Seq<HitView>) -> Seq<HitView> {
    ranked_from(hs, 64)
}

/// One result line.
pub open spec fn hit_line(h: HitView) -> Seq<char> {
    "- **"@ + h.name + "**: "@ + h.description + " (Score: "@ + decimal(h.score) + ".00)\n"@
}

pub open spec fn hit_lines(hs: Seq<HitView>) -> Seq<char>
    decreases hs.len(),
{
    if hs.len() == 0 {
        Seq::empty()
    } else {
        hit_lines(hs.drop_last()) + hit_line(hs.last())
    }
}

/// The five best hits.
pub open spec fn top_hits(hs: Seq<HitView>) -> Seq<HitView> {
    let r = ranked(hs);
    r.take(if r.len() < 5 {
        r.len() as int
    } else {
        5
    })
}

/// The query of an `mcp_search` call, lower-cased.
pub open spec fn search_query(args: Seq<char>) -> Seq<char> {
    lowercase(
        match json_string_member(args, "query"@) {
            Some(q) => q,
            None => Seq::empty(),
        },
    )
}

/// Text of an `mcp_search` result over the registered tools.
pub open spec fn search_text(entries: Seq<DefView>, q: Seq<char>) -> Seq<char> {
    let hs = hits(entries, expanded_queries(q));
    if hs.len() == 0 {
        "No matching MCP tools found. Please try a different query."@
    } else {
        "Found matching MCP tools:\n\n"@ + hit_lines(top_hits(hs))
    }
}

/// Text of a successful `mcp_describe`.
pub open spec fn describe_text(name: Seq<char>, d: DefView) -> Seq<char> {
    "Tool: "@ + name + "\nDescription: "@ + d.description + "\nParameters Schema:\n"@ + json_pretty(
        d.parameters,
    )
}

/// The tool an `mcp_call` targets.
pub open spec fn call_target(args: Seq<char>) -> Seq<char> {
    match json_string_member(args, "tool_name"@) {
        Some(n) => n,
        None => Seq::empty(),
    }
}

/// The arguments an `mcp_call` passes on.
pub open spec fn call_arguments(args: Seq<char>) -> Seq<char> {
    match json_member_text(args, "arguments"@) {
        Some(a) => a,
        None => "{}"@,
    }
}

struct Hit {
    name: String,
    description: String,
    score: usize,
}

impl View for Hit {
    type V = HitView;

    closed spec fn view(&self) -> HitView {
        HitView { name: self.name@, description: self.description@, score: self.score as nat }
    }
}

spec fn hits_view(v: Seq<Hit>) -> Seq<HitView> {
    v.map_values(|h: Hit| h@)
}

fn expanded_exec(q: &String) -> (r: Vec<String>)
    ensures
        views(r@) == expanded_queries(q@),
        r@.len() <= 8,
{
    let mut r: Vec<String> = Vec::new();
    r.push(q.clone());
    let f = str_contains(q.as_str(), "find") || str_contains(q.as_str(), "search") || str_contains(
        q.as_str(),
        "查找",
    ) || str_contains(q.as_str(), "搜索");
    if f {
        r.push("find".to_owned());
        r.push("search".to_owned());
        r.push("get".to_owned());
    }
    let u = str_contains(q.as_str(), "update") || str_contains(q.as_str(), "modify")
        || str_contains(q.as_str(), "edit") || str_contains(q.as_str(), "修改") || str_contains(
        q.as_str(),
        "编辑",
    );
    if u {
        r.push("update".to_owned());
        r.push("modify".to_owned());
        r.push("edit".to_owned());
        r.push("write".to_owned());
    }
    assert(views(r@) =~= expanded_queries(q@));
    r
}

fn score_exec(name: &String, description: &String, parameters: &String, qs: &Vec<String>) -> (s: usize)
    requires
        qs@.len() <= 8,
    ensures
        s == tool_score(DefView { name: name@, description: description@, parameters: parameters@ }, views(qs@)),
        s <= 64,
{
    let ghost d = DefView { name: name@, description: description@, parameters: parameters@ };
    let ghost qv = views(qs@);
    let ln = to_lowercase(name.as_str());
    let ld = to_lowercase(description.as_str());
    let lp = to_lowercase(parameters.as_str());
    let mut s: usize = 0;
    let mut i: usize = 0;
    while i < qs.len()
        invariant
            i <= qs@.len(),
            qs@.len() <= 8,
            qv == views(qs@),
            d == (DefView { name: name@, description: description@, parameters: parameters@ }),
            ln@ == lowercase(name@),
            ld@ == lowercase(description@),
            lp@ == lowercase(parameters@),
            s == tool_score(d, qv.take(i as int)),
            s <= 8 * i,
        decreases qs.len() - i,
    {
        proof {
            assert(qv.take(i + 1).drop_last() =~= qv.take(i as int));
            assert(qv.take(i + 1).last() == qv[i as int]);
            assert(qv[i as int] == qs@[i as int]@);
        }
        let ghost s0 = s;
        if str_contains(ln.as_str(), qs[i].as_str()) {
            s = s + 5;
        }
        if str_contains(ld.as_str(), qs[i].as_str()) {
            s = s + 1;
        }
        if str_contains(lp.as_str(), qs[i].as_str()) {
            s = s + 2;
        }
        assert(s == s0 + word_points(d, qv[i as int]));
        i = i + 1;
    }
    assert(qv.take(i as int) =~= qv);
    s
}

fn hit_line_exec(h: &Hit, out: &mut Vec<char>)
    ensures
        final(out)@ == old(out)@ + hit_line(h@),
{
    append_str(out, "- **");
    append_str(out, h.name.as_str());
    append_str(out, "**: ");
    append_str(out, h.description.as_str());
    append_str(out, " (Score: ");
    let d = decimal_chars(h.score);
    append_chars(out, &d);
    append_str(out, ".00)\n");
    assert(final(out)@ =~= old(out)@ + hit_line(h@));
}

proof fn lemma_ranked_step(hs: Seq<HitView>, s: nat)
    requires
        1 <= s,
    ensures
        ranked_from(hs, s) == with_score(hs, s) + ranked_from(hs, (s - 1) as nat),
{
}

/// The text of an `mcp_search` result for an already lower-cased query.
fn search_result_text(tools: &Vec<crate::providers::types::ToolDefinition>, q: &String) -> (r: String)
    ensures
        r@ == search_text(crate::agent::tool_registry::defs_view(tools@), q@),
{
    let ghost entries = crate::agent::tool_registry::defs_view(tools@);
    let qs = expanded_exec(q);
    let ghost qv = views(qs@);
    let mut found: Vec<Hit> = Vec::new();
    let mut i: usize = 0;
    while i < tools.len()
        invariant
            i <= tools@.len(),
            entries == crate::agent::tool_registry::defs_view(tools@),
            qv == views(qs@),
            qv == expanded_queries(q@),
            qs@.len() <= 8,
            hits_view(found@) == hits(entries.take(i as int), qv),
            forall|k: int| 0 <= k < found@.len() ==> found@[k].score <= 64,
        decreases tools.len() - i,
    {
        proof {
            assert(entries.take(i + 1).drop_last() =~= entries.take(i as int));
            assert(entries[i as int] == tools@[i as int]@);
        }
        if str_starts_with(tools[i].name.as_str(), "mcp_") {
            let s = score_exec(&tools[i].name, &tools[i].description, &tools[i].parameters, &qs);
            if s >= 1 {
                found.push(
                    Hit {
                        name: tools[i].name.clone(),
                        description: tools[i].description.clone(),
                        score: s,
                    },
                );
            }
        }
        i = i + 1;
        assert(hits_view(found@) =~= hits(entries.take(i as int), qv));
    }
    assert(entries.take(i as int) =~= entries);
    let ghost hv = hits_view(found@);
    if found.len() == 0 {
        return "No matching MCP tools found. Please try a different query.".to_owned();
    }
    // Group by descending score, keeping catalogue order within a score.
    let mut order: Vec<usize> = Vec::new();
    let mut s: usize = 64;
    while s >= 1
        invariant
            s <= 64,
            hv == hits_view(found@),
            forall|k: int| 0 <= k < order@.len() ==> order@[k] < found@.len(),
            order@.map_values(|k: usize| hv[k as int]) + ranked_from(hv, s as nat) == ranked(hv),
        decreases s,
    {
        let ghost before = order@;
        let mut j: usize = 0;
        while j < found.len()
            invariant
                j <= found@.len(),
                1 <= s <= 64,
                hv == hits_view(found@),
                forall|k: int| 0 <= k < order@.len() ==> order@[k] < found@.len(),
                order@.map_values(|k: usize| hv[k as int]) == before.map_values(|k: usize| hv[k as int])
                    + with_score(hv.take(j as int), s as nat),
            decreases found.len() - j,
        {
            proof {
                assert(hv.take(j + 1).drop_last() =~= hv.take(j as int));
                assert(hv.take(j + 1).last() == hv[j as int]);
                assert(hv[j as int] == found@[j as int]@);
            }
            let ghost ob = order@;
            if found[j].score == s {
                order.push(j);
                assert(order@.map_values(|k: usize| hv[k as int]) =~= ob.map_values(|k: usize| hv[k as int]).push(hv[j as int]));
            }
            j = j + 1;
            assert(order@.map_values(|k: usize| hv[k as int]) =~= before.map_values(
                |k: usize| hv[k as int],
            ) + with_score(hv.take(j as int), s as nat));
        }
        assert(hv.take(j as int) =~= hv);
        proof {
            lemma_ranked_step(hv, s as nat);
            assert(order@.map_values(|k: usize| hv[k as int]) + ranked_from(hv, (s - 1) as nat)
                =~= before.map_values(|k: usize| hv[k as int]) + ranked_from(hv, s as nat));
        }
        s = s - 1;
    }
    let ghost rk = ranked(hv);
    assert(order@.map_values(|k: usize| hv[k as int]) =~= rk);
    let limit = if order.len() < 5 {
        order.len()
    } else {
        5
    };
    let mut out: Vec<char> = Vec::new();
    append_str(&mut out, "Found matching MCP tools:\n\n");
    let ghost head = out@;
    let mut t: usize = 0;
    while t < limit
        invariant
            t <= limit,
            limit <= order@.len(),
            hv == hits_view(found@),
            rk == ranked(hv),
            order@.map_values(|k: usize| hv[k as int]) == rk,
            forall|k: int| 0 <= k < order@.len() ==> order@[k] < found@.len(),
            out@ == head + hit_lines(rk.take(t as int)),
        decreases limit - t,
    {
        proof {
            assert(rk.take(t + 1).drop_last() =~= rk.take(t as int));
            assert(rk[t as int] == hv[order@[t as int] as int]);
            assert(hv[order@[t as int] as int] == found@[order@[t as int] as int]@);
        }
        hit_line_exec(&found[order[t]], &mut out);
        t = t + 1;
        assert(out@ =~= head + hit_lines(rk.take(t as int)));
    }
    assert(rk.take(t as int) =~= top_hits(hv));
    string_from_chars(&out)
}

impl Agent {
    /// `mcp_search`: fuzzy search of the registered MCP tools. Fails when the
    /// (lower-cased) query is empty; otherwise lists the five best matches, or
    /// says that none matched.
    pub fn handle_mcp_search(&self, tc: &ToolCall) -> (r: ToolResult)
        ensures
            search_query(tc.arguments@).len() == 0 ==> !r.success && r.content@
                == "Error: Query cannot be empty."@,
            search_query(tc.arguments@).len() > 0 ==> r.success && r.content@ == search_text(
                self.tools(),
                search_query(tc.arguments@),
            ),
    {
        let raw = match str_member(tc.arguments.as_str(), "query") {
            Some(q) => q,
            None => String::new(),
        };
        let q = to_lowercase(raw.as_str());
        if q.unicode_len() == 0 {
            return ToolResult { success: false, content: "Error: Query cannot be empty.".to_owned() };
        }
        let tools = self.tool_registry.get_tools();
        let content = search_result_text(tools, &q);
        ToolResult { success: true, content }
    }

    /// `mcp_describe`: name, description and pretty-printed parameter schema
    /// of one registered tool, or a failure naming the unknown tool.
    pub fn handle_mcp_describe(&self, tc: &ToolCall) -> (r: ToolResult)
        ensures
            ({
                let name = call_target(tc.arguments@);
                match crate::agent::tool_registry::index_of_name(self.tools(), name) {
                    Some(i) => r.success && r.content@ == describe_text(name, self.tools()[i]),
                    None => !r.success && r.content@ == "Error: Tool '"@ + name
                        + "' not found in registry."@,
                }
            }),
    {
        let name = match str_member(tc.arguments.as_str(), "tool_name") {
            Some(n) => n,
            None => String::new(),
        };
        let mut out: Vec<char> = Vec::new();
        match self.tool_registry.get(&name) {
            Some(def) => {
                append_str(&mut out, "Tool: ");
                append_str(&mut out, name.as_str());
                append_str(&mut out, "\nDescription: ");
                append_str(&mut out, def.description.as_str());
                append_str(&mut out, "\nParameters Schema:\n");
                let p = pretty(def.parameters.as_str());
                append_str(&mut out, p.as_str());
                ToolResult { success: true, content: string_from_chars(&out) }
            },
            None => {
                append_str(&mut out, "Error: Tool '");
                append_str(&mut out, name.as_str());
                append_str(&mut out, "' not found in registry.");
                ToolResult { success: false, content: string_from_chars(&out) }
            },
        }
    }
}

/// `mcp_call`: the call to run on the MCP servers — same id, the tool named
/// by `tool_name` (empty when absent) and the JSON of `arguments` (`{}` when
/// absent).
pub fn mcp_call_request(tc: &ToolCall) -> (r: ToolCall)
    ensures
        r.id@ == tc.id@,
        r.name@ == call_target(tc.arguments@),
        r.arguments@ == call_arguments(tc.arguments@),
{
    let name = match str_member(tc.arguments.as_str(), "tool_name") {
        Some(n) => n,
        None => String::new(),
    };
    let arguments = match member_text(tc.arguments.as_str(), "arguments") {
        Some(a) => a,
        None => "{}".to_owned(),
    };
    ToolCall { id: tc.id.clone(), name, arguments }
}

/// `mcp_refresh_catalog`: the result reported once the catalogue was reloaded.
pub fn mcp_refresh_result() -> (r: ToolResult)
    ensures
        r.success,
        r.content@ == "MCP tool catalog refreshed successfully."@,
{
    ToolResult { success: true, content: "MCP tool catalog refreshed successfully.".to_owned() }
}

/// Note for a server that is not trusted in the workspace.
pub open spec fn untrusted_note(server: Seq<char>, work_dir: Seq<char>) -> Seq<char> {
    "• 服务器 '"@ + server + "' 未被授权在工作区 '"@ + work_dir + "' 运行 (Trust Scope)"@
}

/// Note for a server on which the tool failed.
pub open spec fn failure_note(server: Seq<char>, command: Seq<char>, err: Seq<char>) -> Seq<char> {
    "• 服务器 '"@ + server + "' ("@ + command + "): "@ + err
}

/// Report of an MCP tool that no server ran.
pub open spec fn mcp_failure_text(tool: Seq<char>, enabled: nat, notes: Seq<Seq<char>>) -> Seq<char> {
    if enabled == 0 {
        "❌ MCP 工具 "@ + tool
            + " 执行失败\n\n原因：没有启用的 MCP 服务器\n\n💡 解决方法：\n1. 在设置中添加并启用 MCP 服务器\n2. 确保服务器配置正确\n3. 检查命令和参数是否正确"@
    } else if notes.len() == 0 {
        "❌ MCP 工具 "@ + tool + " 执行失败\n\n原因：未知错误（没有启用的服务器返回结果）"@
    } else {
        "❌ MCP 工具 "@ + tool + " 执行失败\n\n尝试了 "@ + decimal(enabled)
            + " 个服务器，全部失败：\n\n"@ + join(notes, "\n"@)
            + "\n\n💡 可能的原因：\n1. 工具名称不匹配（工具可能不存在于这些服务器中）\n2. 服务器启动失败或超时\n3. 参数格式错误\n4. 网络连接问题\n\n🔧 建议：\n1. 检查工具名称是否正确\n2. 在设置中测试 MCP 服务器连接\n3. 查看服务器日志了解详细错误"@
    }
}

/// Running an MCP tool on the configured servers, one after another: the
/// first server that runs it gives the result; the notes collected from the
/// others make up the failure report.
pub struct McpAttempt {
    pub notes: Vec<String>,
    pub enabled_count: usize,
}

impl McpAttempt {
    /// No server tried yet.
    pub fn new() -> (r: McpAttempt)
        ensures
            r.notes@.len() == 0,
            r.enabled_count == 0,
    {
        McpAttempt { notes: Vec::new(), enabled_count: 0 }
    }

    /// Whether to try the tool on this server: disabled servers are skipped;
    /// a server not trusted in the workspace is skipped with a note; the
    /// others count as enabled and are tried.
    pub fn consider(&mut self, server_name: &str, enabled: bool, trusted: bool, work_dir: &str) -> (run: bool)
        requires
            old(self).enabled_count < usize::MAX,
        ensures
            run == (enabled && trusted),
            !enabled ==> *final(self) == *old(self),
            enabled && !trusted ==> views(final(self).notes@) == views(old(self).notes@).push(
                untrusted_note(server_name@, work_dir@),
            ) && final(self).enabled_count == old(self).enabled_count,
            enabled && trusted ==> final(self).notes == old(self).notes && final(self).enabled_count
                == old(self).enabled_count + 1,
    {
        if !enabled {
            return false;
        }
        if !trusted {
            let mut out: Vec<char> = Vec::new();
            append_str(&mut out, "• 服务器 '");
            append_str(&mut out, server_name);
            append_str(&mut out, "' 未被授权在工作区 '");
            append_str(&mut out, work_dir);
            append_str(&mut out, "' 运行 (Trust Scope)");
            self.notes.push(string_from_chars(&out));
            assert(views(self.notes@) =~= views(old(self).notes@).push(
                untrusted_note(server_name@, work_dir@),
            ));
            return false;
        }
        self.enabled_count = self.enabled_count + 1;
        true
    }

    /// The tool failed on a server.
    pub fn failed(&mut self, server_name: &str, command: &str, err: &str)
        ensures
            views(final(self).notes@) == views(old(self).notes@).push(
                failure_note(server_name@, command@, err@),
            ),
            final(self).enabled_count == old(self).enabled_count,
    {
        let mut out: Vec<char> = Vec::new();
        append_str(&mut out, "• 服务器 '");
        append_str(&mut out, server_name);
        append_str(&mut out, "' (");
        append_str(&mut out, command);
        append_str(&mut out, "): ");
        append_str(&mut out, err);
        self.notes.push(string_from_chars(&out));
        assert(views(self.notes@) =~= views(old(self).notes@).push(
            failure_note(server_name@, command@, err@),
        ));
    }

    /// The failure reported when no server ran the tool.
    pub fn outcome(&self, tool: &str) -> (r: ToolResult)
        ensures
            !r.success,
            r.content@ == mcp_failure_text(tool@, self.enabled_count as nat, views(self.notes@)),
    {
        let mut out: Vec<char> = Vec::new();
        append_str(&mut out, "❌ MCP 工具 ");
        append_str(&mut out, tool);
        if self.enabled_count == 0 {
            append_str(
                &mut out,
                " 执行失败\n\n原因：没有启用的 MCP 服务器\n\n💡 解决方法：\n1. 在设置中添加并启用 MCP 服务器\n2. 确保服务器配置正确\n3. 检查命令和参数是否正确",
            );
        } else if self.notes.len() == 0 {
            append_str(&mut out, " 执行失败\n\n原因：未知错误（没有启用的服务器返回结果）");
        } else {
            append_str(&mut out, " 执行失败\n\n尝试了 ");
            let d = decimal_chars(self.enabled_count);
            append_chars(&mut out, &d);
            append_str(&mut out, " 个服务器，全部失败：\n\n");
            let j = crate::text::join_strings(&self.notes, "\n");
            append_str(&mut out, j.as_str());
            append_str(
                &mut out,
                "\n\n💡 可能的原因：\n1. 工具名称不匹配（工具可能不存在于这些服务器中）\n2. 服务器启动失败或超时\n3. 参数格式错误\n4. 网络连接问题\n\n🔧 建议：\n1. 检查工具名称是否正确\n2. 在设置中测试 MCP 服务器连接\n3. 查看服务器日志了解详细错误",
            );
        }
        assert(out@ =~= mcp_failure_text(tool@, self.enabled_count as nat, views(self.notes@)));
        ToolResult { success: false, content: string_from_chars(&out) }
    }
}

} // verus!
