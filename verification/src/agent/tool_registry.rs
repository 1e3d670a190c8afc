//! The tool registry: tool definitions keyed by name.
use vstd::prelude::*;
use crate::providers::types::ToolDefinition;
use crate::text::{starts_with_seq, str_starts_with};

verus! {

/// Abstract tool definition.
pub ghost struct DefView {
    pub name: Seq<char>,
    pub description: Seq<char>,
    pub parameters: Seq<char>,
}

impl View for ToolDefinition {
    type V = DefView;

    open spec fn view(&self) -> DefView {
        DefView { name: self.name@, description: self.description@, parameters: self.parameters@ }
    }
}

pub open spec fn defs_view(v: Seq<ToolDefinition>) -> Seq<DefView> {
    v.map_values(|d: ToolDefinition| d@)
}

/// No two entries share a name.
pub open spec fn names_unique(s: Seq<DefView>) -> bool {
    forall|i: int, j: int| 0 <= i < j < s.len() ==> s[i].name != s[j].name
}

/// Index of the entry named `name`, if any.
pub open spec fn index_of_name(s: Seq<DefView>, name: Seq<char>) -> Option<int> {
    if exists|i: int| 0 <= i < s.len() && s[i].name == name {
        Some(choose|i: int| 0 <= i < s.len() && s[i].name == name)
    } else {
        None
    }
}

/// Registering: an entry with the same name is replaced in place, otherwise
/// the definition is added at the end.
pub open spec fn registered(s: Seq<DefView>, d: DefView) -> Seq<DefView> {
    match index_of_name(s, d.name) {
        Some(i) => s.update(i, d),
        None => s.push(d),
    }
}

/// A tool of an MCP server (its name starts with `mcp_`).
pub open spec fn is_mcp_name(n: Seq<char>) -> bool {
    starts_with_seq(n, "mcp_"@)
}

/// Number of MCP tools among the entries.
pub open spec fn mcp_count(s: Seq<DefView>) -> nat
    decreases s.len(),
{
    if s.len() == 0 {
        0
    } else {
        mcp_count(s.drop_last()) + if is_mcp_name(s.last().name) { 1nat } else { 0nat }
    }
}

/// Entries that are not MCP tools, in order.
pub open spec fn non_mcp(s: Seq<DefView>) -> Seq<DefView>
    decreases s.len(),
{
    if s.len() == 0 {
        Seq::empty()
    } else if is_mcp_name(s.last().name) {
        non_mcp(s.drop_last())
    } else {
        non_mcp(s.drop_last()).push(s.last())
    }
}

/// The four catalogue tools offered instead of the MCP tools when there are
/// more than 24 of them.
pub open spec fn meta_tool_views() -> Seq<DefView> {
    seq![
        DefView {
            name: "mcp_search"@,
            description: "在本地 MCP 工具库中模糊搜索相关工具。当可用工具过多时，使用此工具查找所需的能力。"@,
            parameters: "{\"properties\":{\"query\":{\"description\":\"搜索关键词（如同义词、操作名称）\",\"type\":\"string\"}},\"required\":[\"query\"],\"type\":\"object\"}"@,
        },
        DefView {
            name: "mcp_describe"@,
            description: "获取特定 MCP 工具的详细 JSON Schema 说明和输入参数定义。"@,
            parameters: "{\"properties\":{\"tool_name\":{\"description\":\"工具名称（包含 mcp_ 前缀）\",\"type\":\"string\"}},\"required\":[\"tool_name\"],\"type\":\"object\"}"@,
        },
        DefView {
            name: "mcp_call"@,
            description: "调用指定的 MCP 工具。传入工具名称和其所需的 JSON arguments 参数字典。"@,
            parameters: "{\"properties\":{\"arguments\":{\"description\":\"要传入工具的 JSON 参数字典\",\"type\":\"object\"},\"tool_name\":{\"description\":\"要调用的工具名称（如 mcp_xxx）\",\"type\":\"string\"}},\"required\":[\"tool_name\",\"arguments\"],\"type\":\"object\"}"@,
        },
        DefView {
            name: "mcp_refresh_catalog"@,
            description: "刷新本地 MCP 服务器缓存，重新构建索引目录。"@,
            parameters: "{\"properties\":{},\"required\":[],\"type\":\"object\"}"@,
        },
    ]
}

/// The definitions offered to the model.
pub open spec fn offered_definitions(s: Seq<DefView>) -> Seq<DefView> {
    if mcp_count(s) > 24 {
        non_mcp(s) + meta_tool_views()
    } else {
        s
    }
}

/// Tool definitions by name.
pub struct ToolRegistry {
    tools: Vec<ToolDefinition>,
}

impl ToolRegistry {
    #[verifier::type_invariant]
    spec fn inv(self) -> bool {
        names_unique(defs_view(self.tools@))
    }

    /// The registered definitions, in registration order.
    pub closed spec fn entries(self) -> Seq<DefView> {
        defs_view(self.tools@)
    }

    /// An empty registry.
    pub fn new() -> (r: ToolRegistry)
        ensures
            r.entries() == Seq::<DefView>::empty(),
    {
        let r = ToolRegistry { tools: Vec::new() };
        assert(r.entries() =~= Seq::<DefView>::empty());
        r
    }

    /// Adds a definition, replacing the one with the same name.
    pub fn register(&mut self, tool: ToolDefinition)
        ensures
            final(self).entries() == registered(old(self).entries(), tool@),
            names_unique(final(self).entries()),
    {
        proof {
            use_type_invariant(&*self);
        }
        let ghost s = self.entries();
        let mut i: usize = 0;
        while i < self.tools.len()
            invariant
                i <= self.tools@.len(),
                s == defs_view(self.tools@),
                s == old(self).entries(),
                names_unique(s),
                forall|k: int| 0 <= k < i ==> s[k].name != tool@.name,
            decreases self.tools.len() - i,
        {
            if self.tools[i].name == tool.name {
                proof {
                    assert(s[i as int].name == tool@.name);
                    let j = choose|j: int| 0 <= j < s.len() && s[j].name == tool@.name;
                    assert(j == i) by {
                        if j != i as int {
                            assert(names_unique(s));
                        }
                    }
                    assert(index_of_name(s, tool@.name) == Some(i as int));
                }
                let mut tools = Vec::new();
                std::mem::swap(&mut tools, &mut self.tools);
                tools.set(i, tool);
                proof {
                    assert(defs_view(tools@) =~= s.update(i as int, tool@));
                    assert(names_unique(defs_view(tools@)));
                }
                self.tools = tools;
                assert(self.entries() =~= s.update(i as int, tool@));
                assert(names_unique(self.entries()));
                assert(s == old(self).entries());
                assert(self.entries() == registered(s, tool@));
                return;
            }
            i = i + 1;
        }
        let mut tools = Vec::new();
        std::mem::swap(&mut tools, &mut self.tools);
        tools.push(tool);
        proof {
            assert(defs_view(tools@) =~= s.push(tool@));
            assert(names_unique(defs_view(tools@)));
        }
        self.tools = tools;
    }

    /// Registers each definition in turn.
    pub fn register_batch(&mut self, tools: Vec<ToolDefinition>)
        ensures
            final(self).entries() == defs_view(tools@).fold_left(
                old(self).entries(),
                |acc: Seq<DefView>, d: DefView| registered(acc, d),
            ),
    {
        let ghost dv = defs_view(tools@);
        let mut tools = tools;
        let mut rev: Vec<ToolDefinition> = Vec::new();
        let n = tools.len();
        while tools.len() > 0
            invariant
                dv.len() == n,
                n == tools@.len() + rev@.len(),
                defs_view(tools@) == dv.take(tools@.len() as int),
                forall|k: int| 0 <= k < rev@.len() ==> #[trigger] rev@[k]@ == dv[n - 1 - k],
            decreases tools.len(),
        {
            let ghost m = tools@.len();
            assert(defs_view(tools@)[m - 1] == tools@[m - 1]@);
            let t = tools.pop().unwrap();
            rev.push(t);
            assert(defs_view(tools@) =~= dv.take(tools@.len() as int));
        }
        let mut i: usize = 0;
        while rev.len() > 0
            invariant
                n == i + rev@.len(),
                dv.len() == n,
                forall|k: int| 0 <= k < rev@.len() ==> #[trigger] rev@[k]@ == dv[n - 1 - k],
                self.entries() == dv.take(i as int).fold_left(
                    old(self).entries(),
                    |acc: Seq<DefView>, d: DefView| registered(acc, d),
                ),
            decreases rev.len(),
        {
            let t = rev.pop().unwrap();
            proof {
                assert(dv.take(i + 1).drop_last() =~= dv.take(i as int));
                assert(t@ == dv[i as int]);
            }
            self.register(t);
            i = i + 1;
        }
        assert(dv.take(i as int) =~= dv);
    }

    /// All registered definitions, in registration order.
    pub fn get_tools(&self) -> (r: &Vec<ToolDefinition>)
        ensures
            defs_view(r@) == self.entries(),
    {
        &self.tools
    }

    /// The definition registered under `name`.
    pub fn get(&self, name: &String) -> (r: Option<&ToolDefinition>)
        ensures
            r matches Some(d) ==> index_of_name(self.entries(), name@) matches Some(i)
                && d@ == self.entries()[i],
            r is None ==> index_of_name(self.entries(), name@) is None,
    {
        proof {
            use_type_invariant(self);
        }
        let ghost s = self.entries();
        let mut i: usize = 0;
        while i < self.tools.len()
            invariant
                i <= self.tools@.len(),
                s == defs_view(self.tools@),
                names_unique(s),
                forall|k: int| 0 <= k < i ==> s[k].name != name@,
            decreases self.tools.len() - i,
        {
            if self.tools[i].name == *name {
                proof {
                    assert(s[i as int].name == name@);
                    let j = choose|j: int| 0 <= j < s.len() && s[j].name == name@;
                    assert(j == i) by {
                        if j != i as int {
                            assert(names_unique(s));
                        }
                    }
                }
                return Some(&self.tools[i]);
            }
            i = i + 1;
        }
        None
    }

    /// The definitions offered to the model: everything, or, when more than
    /// 24 MCP tools are registered, the other tools followed by the four
    /// catalogue tools (`mcp_search`, `mcp_describe`, `mcp_call`,
    /// `mcp_refresh_catalog`).
    pub fn get_all_definitions(&self) -> (r: Vec<ToolDefinition>)
        ensures
            defs_view(r@) == offered_definitions(self.entries()),
    {
        let ghost s = self.entries();
        let mut count: usize = 0;
        let mut others: Vec<ToolDefinition> = Vec::new();
        let mut all: Vec<ToolDefinition> = Vec::new();
        let mut i: usize = 0;
        while i < self.tools.len()
            invariant
                i <= self.tools@.len(),
                s == defs_view(self.tools@),
                count == mcp_count(s.take(i as int)),
                count <= i,
                defs_view(others@) == non_mcp(s.take(i as int)),
                defs_view(all@) == s.take(i as int),
            decreases self.tools.len() - i,
        {
            proof {
                assert(s.take(i + 1).drop_last() =~= s.take(i as int));
            }
            let d = clone_def(&self.tools[i]);
            if str_starts_with(self.tools[i].name.as_str(), "mcp_") {
                count = count + 1;
            } else {
                others.push(clone_def(&self.tools[i]));
            }
            all.push(d);
            i = i + 1;
            assert(defs_view(others@) =~= non_mcp(s.take(i as int)));
            assert(defs_view(all@) =~= s.take(i as int));
        }
        assert(s.take(i as int) =~= s);
        if count > 24 {
            let mut r = others;
            let ghost o = defs_view(r@);
            r.push(meta_def("mcp_search", "在本地 MCP 工具库中模糊搜索相关工具。当可用工具过多时，使用此工具查找所需的能力。", "{\"properties\":{\"query\":{\"description\":\"搜索关键词（如同义词、操作名称）\",\"type\":\"string\"}},\"required\":[\"query\"],\"type\":\"object\"}"));
            r.push(meta_def("mcp_describe", "获取特定 MCP 工具的详细 JSON Schema 说明和输入参数定义。", "{\"properties\":{\"tool_name\":{\"description\":\"工具名称（包含 mcp_ 前缀）\",\"type\":\"string\"}},\"required\":[\"tool_name\"],\"type\":\"object\"}"));
            r.push(meta_def("mcp_call", "调用指定的 MCP 工具。传入工具名称和其所需的 JSON arguments 参数字典。", "{\"properties\":{\"arguments\":{\"description\":\"要传入工具的 JSON 参数字典\",\"type\":\"object\"},\"tool_name\":{\"description\":\"要调用的工具名称（如 mcp_xxx）\",\"type\":\"string\"}},\"required\":[\"tool_name\",\"arguments\"],\"type\":\"object\"}"));
            r.push(meta_def("mcp_refresh_catalog", "刷新本地 MCP 服务器缓存，重新构建索引目录。", "{\"properties\":{},\"required\":[],\"type\":\"object\"}"));
            assert(defs_view(r@) =~= o + meta_tool_views());
            r
        } else {
            all
        }
    }
}

/// A copy of a definition.
pub fn clone_def(d: &ToolDefinition) -> (r: ToolDefinition)
    ensures
        r@ == d@,
{
    ToolDefinition {
        name: d.name.clone(),
        description: d.description.clone(),
        parameters: d.parameters.clone(),
    }
}

fn meta_def(name: &str, description: &str, parameters: &str) -> (r: ToolDefinition)
    ensures
        r@ == (DefView { name: name@, description: description@, parameters: parameters@ }),
{
    ToolDefinition {
        name: name.to_owned(),
        description: description.to_owned(),
        parameters: parameters.to_owned(),
    }
}

impl Default for ToolRegistry {
    fn default() -> (r: ToolRegistry)
        ensures
            r.entries() == Seq::<DefView>::empty(),
    {
        ToolRegistry::new()
    }
}

} // verus!
