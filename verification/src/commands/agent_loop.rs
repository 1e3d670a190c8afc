//! The decisions around a chat's agent loop: the rules and skills put in
//! front of the conversation, the request that summarises old history when
//! the context is compressed, and the repair advice given after a failed
//! tool call.
use vstd::prelude::*;
use crate::agent::run::text_msg;
use crate::providers::types::{msgs_view, BlockView, ContentBlock, MessageRole, MsgView, UnifiedMessage};
use crate::text::{
    append_str, byte_len, byte_len_exceeds, char_index_at_byte, contains_seq, cut_at_bytes, join,
    join_strings, lemma_byte_len_take_mono, lemma_prefix_unique, lowercase, prefix_chars_for_bytes,
    str_chars, str_contains, str_trim, string_from_chars, take_chars, to_lowercase, trim_seq, views,
};
use crate::tools::ToolResult;

verus! {

/// The instruction message made of the merged `AGENT.md` rules.
pub open spec fn rules_text(merged: Seq<char>) -> Seq<char> {
    "[系统指令 — 遵循以下规则约束你的行为]\n\n"@ + trim_seq(merged) + "\n\n---\n请始终遵循以上规则。"@
}

/// The rules message of a run: present when rule files were found and their
/// merged text is not blank.
pub fn agent_rules_text(found: bool, merged: &str) -> (r: Option<String>)
    ensures
        (found && trim_seq(merged@).len() > 0) ==> (r matches Some(t) && t@ == rules_text(merged@)),
        !(found && trim_seq(merged@).len() > 0) ==> r is None,
{
    if !found {
        return None;
    }
    let t = str_trim(merged);
    if t.unicode_len() == 0 {
        return None;
    }
    let mut out: Vec<char> = Vec::new();
    append_str(&mut out, "[系统指令 — 遵循以下规则约束你的行为]\n\n");
    append_str(&mut out, t.as_str());
    append_str(&mut out, "\n\n---\n请始终遵循以上规则。");
    Some(string_from_chars(&out))
}

/// The conversation of a run: the enabled skills' context first, then the
/// rules, then the messages (each only when present).
pub open spec fn with_instructions(ms: Seq<MsgView>, rules: Option<Seq<char>>, skills: Option<Seq<char>>) -> Seq<MsgView> {
    let a = match rules {
        Some(t) => seq![text_msg(MessageRole::User, t)] + ms,
        None => ms,
    };
    match skills {
        Some(t) => seq![text_msg(MessageRole::User, t)] + a,
        None => a,
    }
}

/// Puts the rules and then the skills' context in front of the messages.
pub fn prepend_instructions(messages: Vec<UnifiedMessage>, rules: Option<String>, skills: Option<String>) -> (r: Vec<UnifiedMessage>)
    ensures
        msgs_view(r@) == with_instructions(
            msgs_view(messages@),
            match rules { Some(t) => Some(t@), None => None },
            match skills { Some(t) => Some(t@), None => None },
        ),
{
    let mut out = messages;
    let ghost m0 = msgs_view(out@);
    match rules {
        Some(t) => {
            let ghost tv = t@;
            out.insert(0, UnifiedMessage::text(MessageRole::User, t));
            assert(msgs_view(out@) =~= seq![text_msg(MessageRole::User, tv)] + m0);
        },
        None => {},
    }
    let ghost m1 = msgs_view(out@);
    match skills {
        Some(t) => {
            let ghost tv = t@;
            out.insert(0, UnifiedMessage::text(MessageRole::User, t));
            assert(msgs_view(out@) =~= seq![text_msg(MessageRole::User, tv)] + m1);
        },
        None => {},
    }
    out
}

/// The text blocks of a message, concatenated.
pub open spec fn texts_concat(bs: Seq<BlockView>) -> Seq<char>
    decreases bs.len(),
{
    if bs.len() == 0 {
        Seq::empty()
    } else {
        texts_concat(bs.drop_last()) + match bs.last() {
            BlockView::Text(t) => t,
            BlockView::Image(_) => Seq::empty(),
        }
    }
}

/// How a role is named in a summary request.
pub open spec fn role_label(r: MessageRole) -> Seq<char> {
    match r {
        MessageRole::User => "用户"@,
        MessageRole::Assistant => "助手"@,
        MessageRole::Tool => "工具结果"@,
    }
}

/// One line per message with text that is not blank: its role and text.
pub open spec fn history_lines(ms: Seq<MsgView>) -> Seq<Seq<char>>
    decreases ms.len(),
{
    if ms.len() == 0 {
        Seq::empty()
    } else {
        let p = history_lines(ms.drop_last());
        let t = texts_concat(ms.last().content);
        if trim_seq(t).len() == 0 {
            p
        } else {
            p.push("["@ + role_label(ms.last().role) + "]: "@ + t)
        }
    }
}

/// The request that asks the model to summarise old history.
pub open spec fn summary_request(ms: Seq<MsgView>) -> Seq<char> {
    "请用简洁的要点形式总结以下对话历史。保留关键信息：用户的需求、已完成的文件操作、代码修改、做出的决策、当前任务的进度。用中文回复，不超过 500 字。\n\n---\n"@
        + join(history_lines(ms), "\n"@)
}

fn message_texts(m: &UnifiedMessage) -> (r: String)
    ensures
        r@ == texts_concat(m@.content),
{
    let ghost bv = m@.content;
    let mut out: Vec<char> = Vec::new();
    let mut j: usize = 0;
    while j < m.content.len()
        invariant
            j <= m.content.len(),
            bv == m@.content,
            out@ == texts_concat(bv.take(j as int)),
        decreases m.content.len() - j,
    {
        proof {
            assert(bv.take(j + 1).drop_last() =~= bv.take(j as int));
            assert(bv[j as int] == m.content@[j as int]@);
        }
        match &m.content[j] {
            ContentBlock::Text { text } => {
                append_str(&mut out, text.as_str());
            },
            ContentBlock::Image { .. } => {},
        }
        j = j + 1;
        assert(out@ =~= texts_concat(bv.take(j as int)));
    }
    assert(bv.take(m.content.len() as int) =~= bv);
    string_from_chars(&out)
}

fn role_label_of(r: MessageRole) -> (s: &'static str)
    ensures
        s@ == role_label(r),
{
    match r {
        MessageRole::User => "用户",
        MessageRole::Assistant => "助手",
        MessageRole::Tool => "工具结果",
    }
}

/// The request that summarises the messages that compression folds away.
pub fn summary_prompt(old: &Vec<UnifiedMessage>) -> (r: String)
    ensures
        r@ == summary_request(msgs_view(old@)),
{
    let ghost mv = msgs_view(old@);
    let mut lines: Vec<String> = Vec::new();
    let mut i: usize = 0;
    while i < old.len()
        invariant
            i <= old.len(),
            mv == msgs_view(old@),
            views(lines@) == history_lines(mv.take(i as int)),
        decreases old.len() - i,
    {
        proof {
            assert(mv.take(i + 1).drop_last() =~= mv.take(i as int));
            assert(mv[i as int] == old@[i as int]@);
        }
        let t = message_texts(&old[i]);
        let trimmed = str_trim(t.as_str());
        if trimmed.unicode_len() > 0 {
            let mut line: Vec<char> = Vec::new();
            append_str(&mut line, "[");
            append_str(&mut line, role_label_of(old[i].role));
            append_str(&mut line, "]: ");
            append_str(&mut line, t.as_str());
            let ghost before = lines@;
            lines.push(string_from_chars(&line));
            assert(views(lines@) =~= views(before).push(line@));
        }
        i = i + 1;
    }
    assert(mv.take(old.len() as int) =~= mv);
    let body = join_strings(&lines, "\n");
    let mut out: Vec<char> = Vec::new();
    append_str(&mut out, "请用简洁的要点形式总结以下对话历史。保留关键信息：用户的需求、已完成的文件操作、代码修改、做出的决策、当前任务的进度。用中文回复，不超过 500 字。\n\n---\n");
    append_str(&mut out, body.as_str());
    string_from_chars(&out)
}

/// The context after compression: the summary as a user message, then the
/// recent messages.
pub fn compressed_context(summary: &str, recent: Vec<UnifiedMessage>) -> (r: Vec<UnifiedMessage>)
    ensures
        msgs_view(r@) == seq![text_msg(MessageRole::User, "[上下文摘要 — 之前对话的要点]\n"@ + trim_seq(summary@))]
            + msgs_view(recent@),
{
    let t = str_trim(summary);
    let mut text: Vec<char> = Vec::new();
    append_str(&mut text, "[上下文摘要 — 之前对话的要点]\n");
    append_str(&mut text, t.as_str());
    let mut out = recent;
    let ghost r0 = msgs_view(out@);
    out.insert(0, UnifiedMessage::text(MessageRole::User, string_from_chars(&text)));
    assert(msgs_view(out@) =~= seq![text_msg(MessageRole::User, "[上下文摘要 — 之前对话的要点]\n"@ + trim_seq(summary@))] + r0);
    out
}

/// The index of the first line feed in `s` at or after `i`, or its length.
pub open spec fn newline_from(s: Seq<char>, i: int) -> int
    decreases s.len() - i,
{
    if i < 0 || i >= s.len() {
        s.len() as int
    } else if s[i] == '\n' {
        i
    } else {
        newline_from(s, i + 1)
    }
}

/// The first line of `s` as `lines().next()` gives it (without its line
/// ending); the text itself when it holds no line feed.
pub open spec fn first_line(s: Seq<char>) -> Seq<char> {
    let k = newline_from(s, 0);
    if k < s.len() {
        let l = s.take(k);
        if l.len() > 0 && l.last() == '\r' {
            l.drop_last()
        } else {
            l
        }
    } else {
        s
    }
}

/// The first line of a text.
pub fn first_line_of(s: &str) -> (r: String)
    ensures
        r@ == first_line(s@),
{
    let cs = str_chars(s);
    let n = cs.len();
    let mut i: usize = 0;
    while i < n && cs[i] != '\n'
        invariant
            n == cs.len(),
            i <= n,
            newline_from(cs@, 0) == newline_from(cs@, i as int),
        decreases n - i,
    {
        i = i + 1;
    }
    if i == n {
        return s.to_owned();
    }
    let mut end = i;
    if end > 0 && cs[end - 1] == '\r' {
        end = end - 1;
    }
    let mut out: Vec<char> = Vec::new();
    let mut j: usize = 0;
    while j < end
        invariant
            j <= end,
            end <= n,
            n == cs.len(),
            out@ == cs@.take(j as int),
        decreases end - j,
    {
        out.push(cs[j]);
        j = j + 1;
        assert(out@ =~= cs@.take(j as int));
    }
    proof {
        if end < i {
            assert(cs@.take(i as int).drop_last() =~= cs@.take(end as int));
        }
    }
    string_from_chars(&out)
}

/// What to do after a failed tool call.
#[derive(Debug, Clone)]
pub enum Repair {
    /// A file tool did not find its file: look for files of similar name in
    /// the working directory.
    MissingFile,
    /// Advice to return in place of the error.
    Advice(ToolResult),
    /// No advice: the model decides.
    Pass,
}

/// The tools that work on one file.
pub open spec fn is_file_tool(name: Seq<char>) -> bool {
    name == "read_file"@ || name == "write_file"@ || name == "delete_file"@
}

/// An error that says a file is missing.
pub open spec fn says_missing(lower: Seq<char>) -> bool {
    contains_seq(lower, "not found"@) || contains_seq(lower, "不存在"@) || contains_seq(lower, "no such file"@)
}

/// An error that says a Python module is missing.
pub open spec fn says_module_missing(lower: Seq<char>) -> bool {
    contains_seq(lower, "modulenotfound"@) || contains_seq(lower, "no module named"@)
}

/// An error that says access was refused.
pub open spec fn says_denied(lower: Seq<char>) -> bool {
    contains_seq(lower, "permission denied"@) || contains_seq(lower, "access denied"@) || contains_seq(lower, "eacces"@)
}

/// An error that points at the syntax of a command.
pub open spec fn says_syntax(lower: Seq<char>) -> bool {
    contains_seq(lower, "syntax"@) || contains_seq(lower, "unexpected"@)
}

/// The advice after a missing module.
pub open spec fn module_advice() -> Seq<char> {
    "> 🔧 Python 模块缺失，沙盒已自动安装。请重试原命令。"@
}

/// The advice after a refused access.
pub open spec fn denied_advice() -> Seq<char> {
    "> 权限不足。请尝试:\n> 1. 换一个工作目录\n> 2. 检查文件是否被其他程序占用\n> 3. 使用 list_directory 确认路径"@
}

/// The advice after a command with a syntax error, quoting its first line.
pub open spec fn syntax_advice(error: Seq<char>) -> Seq<char> {
    "> 命令执行出错:\n> "@ + first_line(error) + "\n> 请修正语法后重试。"@
}

/// Classifies a failed tool call by its tool and its error (compared in
/// lower case): a missing file of a file tool; a missing Python module (a
/// success: the sandbox installed it); a refused access; a command with a
/// syntax error; otherwise nothing.
pub fn classify_failure(tool_name: &str, error: &str) -> (r: Repair)
    ensures
        ({
            let lower = lowercase(error@);
            if is_file_tool(tool_name@) && says_missing(lower) {
                r is MissingFile
            } else if says_module_missing(lower) {
                r matches Repair::Advice(t) && t.success && t.content@ == module_advice()
            } else if says_denied(lower) {
                r matches Repair::Advice(t) && !t.success && t.content@ == denied_advice()
            } else if tool_name@ == "run_command"@ && says_syntax(lower) {
                r matches Repair::Advice(t) && !t.success && t.content@ == syntax_advice(error@)
            } else {
                r is Pass
            }
        }),
{
    let lower = to_lowercase(error);
    let l = lower.as_str();
    let file_tool = crate::agent::str_equal(tool_name, "read_file") || crate::agent::str_equal(tool_name, "write_file")
        || crate::agent::str_equal(tool_name, "delete_file");
    if file_tool && (str_contains(l, "not found") || str_contains(l, "不存在") || str_contains(l, "no such file")) {
        return Repair::MissingFile;
    }
    if str_contains(l, "modulenotfound") || str_contains(l, "no module named") {
        return Repair::Advice(ToolResult {
            success: true,
            content: "> 🔧 Python 模块缺失，沙盒已自动安装。请重试原命令。".to_owned(),
        });
    }
    if str_contains(l, "permission denied") || str_contains(l, "access denied") || str_contains(l, "eacces") {
        return Repair::Advice(ToolResult {
            success: false,
            content: "> 权限不足。请尝试:\n> 1. 换一个工作目录\n> 2. 检查文件是否被其他程序占用\n> 3. 使用 list_directory 确认路径".to_owned(),
        });
    }
    if crate::agent::str_equal(tool_name, "run_command") && (str_contains(l, "syntax") || str_contains(l, "unexpected")) {
        let first = first_line_of(error);
        let mut out: Vec<char> = Vec::new();
        append_str(&mut out, "> 命令执行出错:\n> ");
        append_str(&mut out, first.as_str());
        append_str(&mut out, "\n> 请修正语法后重试。");
        return Repair::Advice(ToolResult { success: false, content: string_from_chars(&out) });
    }
    Repair::Pass
}

/// The listing of similar files, one per line.
pub open spec fn similar_lines(paths: Seq<Seq<char>>) -> Seq<Seq<char>> {
    paths.map_values(|p: Seq<char>| "  - "@ + p)
}

/// The advice after a missing file: the similar files found in the working
/// directory (a success), or, when there are none, where the search ran.
pub open spec fn missing_file_advice(path: Seq<char>, work_dir: Seq<char>, similar: Seq<Seq<char>>) -> (bool, Seq<char>) {
    if similar.len() > 0 {
        (true, "> 🔧 文件 '"@ + path + "' 未找到。工作目录中相似文件:\n"@ + join(similar_lines(similar), "\n"@)
            + "\n> 请使用正确路径重试。"@)
    } else {
        (false, "> 文件未找到。当前工作目录: "@ + work_dir + "\n> 请用 list_directory 确认文件路径后重试。"@)
    }
}

/// The advice after a missing file, from the files of similar name found in
/// the working directory.
pub fn missing_file_result(path: &str, work_dir: &str, similar: &Vec<String>) -> (r: ToolResult)
    ensures
        r.view_pair() == missing_file_advice(path@, work_dir@, views(similar@)),
{
    if similar.len() > 0 {
        let ghost sv = views(similar@);
        let mut lines: Vec<String> = Vec::new();
        let mut i: usize = 0;
        while i < similar.len()
            invariant
                i <= similar.len(),
                sv == views(similar@),
                views(lines@) == similar_lines(sv.take(i as int)),
            decreases similar.len() - i,
        {
            let mut line: Vec<char> = Vec::new();
            append_str(&mut line, "  - ");
            append_str(&mut line, similar[i].as_str());
            let ghost before = lines@;
            lines.push(string_from_chars(&line));
            proof {
                assert(sv[i as int] == similar@[i as int]@);
                assert(views(lines@) =~= views(before).push("  - "@ + sv[i as int]));
                assert(similar_lines(sv.take(i + 1)) =~= similar_lines(sv.take(i as int)).push("  - "@ + sv[i as int]));
            }
            i = i + 1;
        }
        assert(sv.take(similar.len() as int) =~= sv);
        let listing = join_strings(&lines, "\n");
        let mut out: Vec<char> = Vec::new();
        append_str(&mut out, "> 🔧 文件 '");
        append_str(&mut out, path);
        append_str(&mut out, "' 未找到。工作目录中相似文件:\n");
        append_str(&mut out, listing.as_str());
        append_str(&mut out, "\n> 请使用正确路径重试。");
        ToolResult { success: true, content: string_from_chars(&out) }
    } else {
        let mut out: Vec<char> = Vec::new();
        append_str(&mut out, "> 文件未找到。当前工作目录: ");
        append_str(&mut out, work_dir);
        append_str(&mut out, "\n> 请用 list_directory 确认文件路径后重试。");
        ToolResult { success: false, content: string_from_chars(&out) }
    }
}

/// The prefix that names of similar files are matched by, from the name of
/// a missing file.
#[derive(Debug, Clone)]
pub enum NamePrefix {
    /// The name has fewer than two bytes: no search.
    TooShort,
    /// The first two bytes of the lower-cased name.
    Prefix(String),
    /// The lower-cased name cannot be cut after two bytes (it is shorter, or
    /// its second byte does not end a character).
    Uncuttable,
}

/// The search prefix of a file name: its lower-cased form cut after two
/// bytes, for a name of at least two bytes.
pub fn search_prefix(file_name: &str) -> (r: NamePrefix)
    ensures
        (byte_len(file_name@) < 2) <==> (r is TooShort),
        byte_len(file_name@) >= 2 ==> ((r is Uncuttable) <==> (prefix_chars_for_bytes(
            lowercase(file_name@),
            2,
        ) is None)),
        r matches NamePrefix::Prefix(p) ==> p@ == cut_at_bytes(lowercase(file_name@), 2),
{
    let cs = str_chars(file_name);
    if !byte_len_exceeds(&cs, 1) {
        return NamePrefix::TooShort;
    }
    let lower = to_lowercase(file_name);
    let lcs = str_chars(lower.as_str());
    match char_index_at_byte(&lcs, 2) {
        None => NamePrefix::Uncuttable,
        Some(k) => {
            proof {
                let l = lcs@;
                let w = choose|w: nat| w <= l.len() && byte_len(l.take(w as int)) == 2;
                assert(w <= l.len() && byte_len(l.take(w as int)) == 2);
                assert(k as nat == w);
                if byte_len(l) <= 2 {
                    assert(l.take(l.len() as int) =~= l);
                    lemma_byte_len_take_mono(l, k as int, l.len() as int);
                    lemma_prefix_unique(l, k as nat, l.len());
                    assert(l.take(k as int) =~= l);
                }
            }
            let cut = take_chars(&lcs, k);
            NamePrefix::Prefix(string_from_chars(&cut))
        },
    }
}

/// The view of directory entries as (name, path) pairs.
pub open spec fn entries_view(v: Seq<(String, String)>) -> Seq<(Seq<char>, Seq<char>)> {
    v.map_values(|e: (String, String)| (e.0@, e.1@))
}

/// The paths of the entries (name, path) whose lower-cased name holds
/// `prefix`, in order.
pub open spec fn similar_paths(prefix: Seq<char>, entries: Seq<(Seq<char>, Seq<char>)>) -> Seq<Seq<char>>
    decreases entries.len(),
{
    if entries.len() == 0 {
        Seq::empty()
    } else {
        let rest = similar_paths(prefix, entries.drop_last());
        if contains_seq(lowercase(entries.last().0), prefix) {
            rest.push(entries.last().1)
        } else {
            rest
        }
    }
}

/// The files of the working directory whose name looks like the missing
/// one, from its entries as (name, path) pairs.
pub fn similar_files(prefix: &str, entries: &Vec<(String, String)>) -> (r: Vec<String>)
    ensures
        views(r@) == similar_paths(prefix@, entries_view(entries@)),
{
    let ghost ev = entries_view(entries@);
    let mut r: Vec<String> = Vec::new();
    let mut i: usize = 0;
    while i < entries.len()
        invariant
            i <= entries.len(),
            ev == entries_view(entries@),
            views(r@) == similar_paths(prefix@, ev.take(i as int)),
        decreases entries.len() - i,
    {
        let lower = to_lowercase(entries[i].0.as_str());
        proof {
            assert(ev.take(i + 1).drop_last() =~= ev.take(i as int));
            assert(ev.take(i + 1).last() == ev[i as int]);
            assert(ev[i as int] == (entries@[i as int].0@, entries@[i as int].1@));
        }
        if str_contains(lower.as_str(), prefix) {
            let ghost before = r@;
            r.push(entries[i].1.clone());
            assert(views(r@) =~= views(before).push(entries@[i as int].1@));
        }
        i = i + 1;
    }
    assert(ev.take(i as int) =~= ev);
    r
}

/// The instructions of the ReAct agent mode, put before a conversation.
pub open spec fn react_prompt_text() -> Seq<char> {
    "[ReAct Agent 模式]\n\n你是一个使用 ReAct（Reasoning + Acting）模式的自主智能体。\n\n## 🌐 重要：你的能力\n\n**你拥有强大的工具调用能力！** 当需要执行操作时，使用提供的工具函数，而不是编写代码。\n\n你拥有以下能力：\n- ✅ **网络搜索**：使用 brave_search、fetch 等 MCP 工具进行实时网络搜索\n- ✅ **文件操作**：使用 read_file、write_file 等工具读取、写入、修改文件\n- ✅ **命令执行**：使用 run_command 工具运行 shell 命令\n- ✅ **代码执行**：使用 run_python 工具运行 Python 代码\n- ✅ **API 调用**：通过 MCP 工具调用各种 API\n\n**重要提示**：\n- 当你需要执行操作时，直接调用相应的工具函数\n- 不要输出工具调用的文本格式（如 [TOOL_CALL]{...}）\n- 不要编写 Python 代码来执行网络请求，使用 MCP 搜索工具\n- 系统会自动处理工具调用并返回结果\n\n## 工作流程\n\n每次迭代遵循以下步骤：\n\n1. **Thought（思考）**：\n   - 分析当前状态和已有信息\n   - 思考下一步应该做什么\n   - 判断是否已经可以回答用户问题\n   - **如果需要网络信息，选择合适的 MCP 搜索工具（不要用 run_python 写爬虫）**\n\n2. **Action（行动）**：\n   - 如果需要更多信息，调用合适的工具\n   - **网络搜索：优先使用 brave_search、fetch 等 MCP 工具**\n   - **不要用 run_python 执行 requests 库来搜索，使用专门的搜索工具**\n   - 如果已有足够信息，给出最终答案\n\n3. **Observation（观察）**：\n   - 仔细分析工具执行结果\n   - 根据结果调整策略\n\n## 核心原则\n\n- **目标驱动**：始终记住用户的原始需求\n- **正确使用工具**：使用专门的工具而不是编写代码来实现功能\n- **逐步推进**：每次只做一件事，不要贪多\n- **错误自愈**：工具失败时分析原因并尝试其他方案\n- **主动探索**：不确定时用工具验证假设\n- **及时终止**：完成任务后立即给出答案，不要过度执行\n\n## 工具使用指南\n\n### 网络搜索\n- ✅ 使用 `brave_search` 或 `fetch` 等 MCP 工具\n- ❌ 不要使用 `run_python` 执行 `requests.get()`\n\n### 文件操作\n- ✅ 使用 `read_file`、`write_file` 等工具\n- ❌ 不要使用 `run_python` 执行 `open()` 和 `write()`\n\n### 命令执行\n- ✅ 使用 `run_command` 工具\n- ❌ 不要使用 `run_python` 执行 `os.system()`\n\n## 错误处理策略\n\n- 文件不存在 → 用 list_directory 查找\n- 命令失败 → 分析错误信息，调整参数重试\n- 权限不足 → 换路径或方法\n- 模块缺失 → Python 沙盒会自动安装\n- **工具不可用 → 尝试其他类似工具或告知用户具体原因**\n\n现在开始处理用户任务。记住：直接调用工具函数，不要输出文本格式的工具调用！\n"@
}

/// The conversation of an agent run in ReAct mode: the mode's instructions
/// as a user message, then the messages.
pub fn with_react_prompt(messages: Vec<UnifiedMessage>) -> (r: Vec<UnifiedMessage>)
    ensures
        msgs_view(r@) == seq![text_msg(MessageRole::User, react_prompt_text())] + msgs_view(messages@),
{
    let mut out = messages;
    let ghost m0 = msgs_view(out@);
    let prompt = "[ReAct Agent 模式]\n\n你是一个使用 ReAct（Reasoning + Acting）模式的自主智能体。\n\n## 🌐 重要：你的能力\n\n**你拥有强大的工具调用能力！** 当需要执行操作时，使用提供的工具函数，而不是编写代码。\n\n你拥有以下能力：\n- ✅ **网络搜索**：使用 brave_search、fetch 等 MCP 工具进行实时网络搜索\n- ✅ **文件操作**：使用 read_file、write_file 等工具读取、写入、修改文件\n- ✅ **命令执行**：使用 run_command 工具运行 shell 命令\n- ✅ **代码执行**：使用 run_python 工具运行 Python 代码\n- ✅ **API 调用**：通过 MCP 工具调用各种 API\n\n**重要提示**：\n- 当你需要执行操作时，直接调用相应的工具函数\n- 不要输出工具调用的文本格式（如 [TOOL_CALL]{...}）\n- 不要编写 Python 代码来执行网络请求，使用 MCP 搜索工具\n- 系统会自动处理工具调用并返回结果\n\n## 工作流程\n\n每次迭代遵循以下步骤：\n\n1. **Thought（思考）**：\n   - 分析当前状态和已有信息\n   - 思考下一步应该做什么\n   - 判断是否已经可以回答用户问题\n   - **如果需要网络信息，选择合适的 MCP 搜索工具（不要用 run_python 写爬虫）**\n\n2. **Action（行动）**：\n   - 如果需要更多信息，调用合适的工具\n   - **网络搜索：优先使用 brave_search、fetch 等 MCP 工具**\n   - **不要用 run_python 执行 requests 库来搜索，使用专门的搜索工具**\n   - 如果已有足够信息，给出最终答案\n\n3. **Observation（观察）**：\n   - 仔细分析工具执行结果\n   - 根据结果调整策略\n\n## 核心原则\n\n- **目标驱动**：始终记住用户的原始需求\n- **正确使用工具**：使用专门的工具而不是编写代码来实现功能\n- **逐步推进**：每次只做一件事，不要贪多\n- **错误自愈**：工具失败时分析原因并尝试其他方案\n- **主动探索**：不确定时用工具验证假设\n- **及时终止**：完成任务后立即给出答案，不要过度执行\n\n## 工具使用指南\n\n### 网络搜索\n- ✅ 使用 `brave_search` 或 `fetch` 等 MCP 工具\n- ❌ 不要使用 `run_python` 执行 `requests.get()`\n\n### 文件操作\n- ✅ 使用 `read_file`、`write_file` 等工具\n- ❌ 不要使用 `run_python` 执行 `open()` 和 `write()`\n\n### 命令执行\n- ✅ 使用 `run_command` 工具\n- ❌ 不要使用 `run_python` 执行 `os.system()`\n\n## 错误处理策略\n\n- 文件不存在 → 用 list_directory 查找\n- 命令失败 → 分析错误信息，调整参数重试\n- 权限不足 → 换路径或方法\n- 模块缺失 → Python 沙盒会自动安装\n- **工具不可用 → 尝试其他类似工具或告知用户具体原因**\n\n现在开始处理用户任务。记住：直接调用工具函数，不要输出文本格式的工具调用！\n".to_owned();
    out.insert(0, UnifiedMessage::text(MessageRole::User, prompt));
    assert(msgs_view(out@) =~= seq![text_msg(MessageRole::User, react_prompt_text())] + m0);
    out
}

} // verus!
