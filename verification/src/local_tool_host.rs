//! The local tool host: built-in file and shell tools run in a working
//! directory. The caller performs the file-system and process work; these
//! functions decide what to run and how results read.
use vstd::prelude::*;
use crate::domain::{ToolCall, ToolDefinition, ToolResult};
use crate::json::{json_string_member, str_member};
use crate::paths::joined;
use crate::ports::ToolError;
use crate::text::{
    append_chars, append_str, byte_len, byte_len_exceeds, contains_seq, join, join_strings,
    lowercase, prefix_chars_for_bytes, str_chars, str_contains, string_from_chars, to_lowercase,
    trim_seq, trim_chars, views, char_index_at_byte,
};

verus! {

/// Built-in tools working under a directory.
pub struct LocalToolHost {
    pub work_dir: String,
}

/// Where a tool path points: absolute paths as given, others under the
/// working directory.
pub open spec fn resolved(work_dir: Seq<char>, path: Seq<char>) -> Seq<char> {
    if path.len() > 0 && path[0] == '/' {
        path
    } else {
        joined(work_dir, path)
    }
}

/// Dangerous command patterns and what they do.
pub open spec fn danger_patterns() -> Seq<(Seq<char>, Seq<char>)> {
    seq![
        ("rm -rf /"@, "递归删除根目录"@),
        ("sudo "@, "提权操作"@),
        ("mkfs."@, "格式化文件系统"@),
        ("dd if="@, "磁盘直接写入"@),
        ("> /dev/"@, "写入设备文件"@),
        ("git push --force"@, "强制推送"@),
        ("chmod 777"@, "开放全部权限"@),
        (":(){ :|:& };:"@, "fork 炸弹"@),
    ]
}

/// The first dangerous pattern found in the (lower-cased) command, from
/// index `i` on.
pub open spec fn danger_from(lower: Seq<char>, i: int) -> Option<Seq<char>>
    decreases 8 - i,
{
    if i >= 8 || i < 0 {
        None
    } else if contains_seq(lower, danger_patterns()[i].0) {
        Some(danger_patterns()[i].1)
    } else {
        danger_from(lower, i + 1)
    }
}

/// A command is reported by the first dangerous pattern that its lower-cased
/// text contains, in this order: `rm -rf /` (recursive delete of the root),
/// `sudo ` (privilege escalation), `mkfs.` (formatting), `dd if=` (raw disk
/// write), `> /dev/` (writing a device file), `git push --force` (force
/// push), `chmod 777` (opening all permissions), the fork bomb; a command
/// containing none of them is not dangerous.
pub proof fn law_danger_first_listed_pattern(command: Seq<char>)
    ensures
        ({
            let l = lowercase(command);
            let r = danger_from(l, 0);
            let p0 = contains_seq(l, "rm -rf /"@);
            let p1 = contains_seq(l, "sudo "@);
            let p2 = contains_seq(l, "mkfs."@);
            let p3 = contains_seq(l, "dd if="@);
            let p4 = contains_seq(l, "> /dev/"@);
            let p5 = contains_seq(l, "git push --force"@);
            let p6 = contains_seq(l, "chmod 777"@);
            let p7 = contains_seq(l, ":(){ :|:& };:"@);
            &&& p0 ==> r == Some("递归删除根目录"@)
            &&& !p0 && p1 ==> r == Some("提权操作"@)
            &&& !p0 && !p1 && p2 ==> r == Some("格式化文件系统"@)
            &&& !p0 && !p1 && !p2 && p3 ==> r == Some("磁盘直接写入"@)
            &&& !p0 && !p1 && !p2 && !p3 && p4 ==> r == Some("写入设备文件"@)
            &&& !p0 && !p1 && !p2 && !p3 && !p4 && p5 ==> r == Some("强制推送"@)
            &&& !p0 && !p1 && !p2 && !p3 && !p4 && !p5 && p6 ==> r == Some("开放全部权限"@)
            &&& !p0 && !p1 && !p2 && !p3 && !p4 && !p5 && !p6 && p7 ==> r == Some("fork 炸弹"@)
            &&& !p0 && !p1 && !p2 && !p3 && !p4 && !p5 && !p6 && !p7 ==> r is None
        }),
{
    reveal_with_fuel(danger_from, 9);
}

/// Whatever pattern list is scanned, the report is the description of the
/// earliest listed pattern that the lower-cased command contains.
pub proof fn law_danger_earliest_pattern_wins(command: Seq<char>, i: int)
    requires
        0 <= i < danger_patterns().len(),
        contains_seq(lowercase(command), danger_patterns()[i].0),
        forall|j: int| 0 <= j < i ==> !contains_seq(lowercase(command), #[trigger] danger_patterns()[j].0),
    ensures
        danger_from(lowercase(command), 0) == Some(danger_patterns()[i].1),
{
    reveal_with_fuel(danger_from, 9);
    let l = lowercase(command);
    assert(!contains_seq(l, danger_patterns()[0].0) || i == 0);
    if i > 1 { assert(!contains_seq(l, danger_patterns()[1].0)); }
    if i > 2 { assert(!contains_seq(l, danger_patterns()[2].0)); }
    if i > 3 { assert(!contains_seq(l, danger_patterns()[3].0)); }
    if i > 4 { assert(!contains_seq(l, danger_patterns()[4].0)); }
    if i > 5 { assert(!contains_seq(l, danger_patterns()[5].0)); }
    if i > 6 { assert(!contains_seq(l, danger_patterns()[6].0)); }
}

/// What a built-in tool call asks for.
#[derive(Debug, Clone)]
pub enum LocalOp {
    ReadFile { path: String },
    WriteFile { path: String, content: String },
    ListDirectory { path: String },
    DeleteFile { path: String },
    RunCommand { command: String, cwd: String },
}

/// A string argument of a call, empty when absent.
pub open spec fn arg(args: Seq<char>, key: Seq<char>) -> Seq<char> {
    match json_string_member(args, key) {
        Some(v) => v,
        None => Seq::empty(),
    }
}

fn arg_exec(args: &str, key: &str) -> (r: String)
    ensures
        r@ == arg(args@, key@),
{
    match str_member(args, key) {
        Some(v) => v,
        None => String::new(),
    }
}

/// The text of a command's output: standard output and standard error
/// (each only when not blank, separated by a newline), or a note that there
/// was none.
pub open spec fn command_text(stdout: Seq<char>, stderr: Seq<char>) -> Seq<char> {
    let out = if trim_seq(stdout).len() > 0 {
        "输出:\n"@ + stdout
    } else {
        Seq::empty()
    };
    let all = if trim_seq(stderr).len() > 0 {
        out + (if out.len() > 0 {
            "\n"@
        } else {
            Seq::empty()
        }) + "错误输出:\n"@ + stderr
    } else {
        out
    };
    if all.len() == 0 {
        "命令执行完成（无输出）"@
    } else {
        all
    }
}

/// Output longer than 10000 bytes is cut there and marked.
pub open spec fn truncated(text: Seq<char>) -> Seq<char> {
    if byte_len(text) > 10000 {
        match prefix_chars_for_bytes(text, 10000) {
            Some(k) => text.take(k as int) + "\n...（输出已截断）"@,
            None => text,
        }
    } else {
        text
    }
}

impl LocalToolHost {
    /// A host working in `work_dir`.
    pub fn new(work_dir: String) -> (r: LocalToolHost)
        ensures
            r.work_dir == work_dir,
    {
        LocalToolHost { work_dir }
    }

    /// Where a tool path points.
    pub fn resolve_path(&self, path: &str) -> (r: String)
        ensures
            r@ == resolved(self.work_dir@, path@),
    {
        let cs = str_chars(path);
        if cs.len() > 0 && cs[0] == '/' {
            path.to_owned()
        } else {
            crate::paths::join_path(self.work_dir.as_str(), path)
        }
    }

    /// The danger a command carries, if it matches a known dangerous pattern
    /// (compared in lower case).
    pub fn detect_dangerous(command: &str) -> (r: Option<String>)
        ensures
            crate::providers::types::opt_view(r) == danger_from(lowercase(command@), 0),
    {
        proof {
            reveal_with_fuel(danger_from, 9);
        }
        let lower = to_lowercase(command);
        let l = lower.as_str();
        if str_contains(l, "rm -rf /") {
            Some("递归删除根目录".to_owned())
        } else if str_contains(l, "sudo ") {
            Some("提权操作".to_owned())
        } else if str_contains(l, "mkfs.") {
            Some("格式化文件系统".to_owned())
        } else if str_contains(l, "dd if=") {
            Some("磁盘直接写入".to_owned())
        } else if str_contains(l, "> /dev/") {
            Some("写入设备文件".to_owned())
        } else if str_contains(l, "git push --force") {
            Some("强制推送".to_owned())
        } else if str_contains(l, "chmod 777") {
            Some("开放全部权限".to_owned())
        } else if str_contains(l, ":(){ :|:& };:") {
            Some("fork 炸弹".to_owned())
        } else {
            None
        }
    }

    /// Whether the host provides the tool.
    pub fn is_tool_allowed(&self, name: &str) -> (b: bool)
        ensures
            b == (name@ == "read_file"@ || name@ == "write_file"@ || name@ == "list_directory"@
                || name@ == "delete_file"@ || name@ == "run_command"@),
    {
        crate::agent::str_equal(name, "read_file") || crate::agent::str_equal(name, "write_file")
            || crate::agent::str_equal(name, "list_directory") || crate::agent::str_equal(name, "delete_file")
            || crate::agent::str_equal(name, "run_command")
    }

    /// What a call asks the host to do; unknown tools are not found.
    pub fn operation(call: &ToolCall) -> (r: Result<LocalOp, ToolError>)
        ensures
            ({
                let n = call.name@;
                let a = call.arguments@;
                if n == "read_file"@ {
                    r matches Ok(LocalOp::ReadFile { path }) && path@ == arg(a, "path"@)
                } else if n == "write_file"@ {
                    r matches Ok(LocalOp::WriteFile { path, content }) && path@ == arg(a, "path"@) && content@ == arg(a, "content"@)
                } else if n == "list_directory"@ {
                    r matches Ok(LocalOp::ListDirectory { path }) && path@ == arg(a, "path"@)
                } else if n == "delete_file"@ {
                    r matches Ok(LocalOp::DeleteFile { path }) && path@ == arg(a, "path"@)
                } else if n == "run_command"@ {
                    r matches Ok(LocalOp::RunCommand { command, cwd }) && command@ == arg(a, "command"@) && cwd@ == arg(a, "cwd"@)
                } else {
                    r matches Err(ToolError::NotFound(m)) && m@ == n
                }
            }),
    {
        let n = call.name.as_str();
        let a = call.arguments.as_str();
        if crate::agent::str_equal(n, "read_file") {
            Ok(LocalOp::ReadFile { path: arg_exec(a, "path") })
        } else if crate::agent::str_equal(n, "write_file") {
            Ok(LocalOp::WriteFile { path: arg_exec(a, "path"), content: arg_exec(a, "content") })
        } else if crate::agent::str_equal(n, "list_directory") {
            Ok(LocalOp::ListDirectory { path: arg_exec(a, "path") })
        } else if crate::agent::str_equal(n, "delete_file") {
            Ok(LocalOp::DeleteFile { path: arg_exec(a, "path") })
        } else if crate::agent::str_equal(n, "run_command") {
            Ok(LocalOp::RunCommand { command: arg_exec(a, "command"), cwd: arg_exec(a, "cwd") })
        } else {
            Err(ToolError::NotFound(call.name.clone()))
        }
    }

    /// The directory a command runs in: the requested one, or the host's.
    pub fn command_dir(&self, cwd: &str) -> (r: String)
        ensures
            r@ == if cwd@.len() > 0 { cwd@ } else { self.work_dir@ },
    {
        if cwd.unicode_len() > 0 {
            cwd.to_owned()
        } else {
            self.work_dir.clone()
        }
    }
}

fn two(a: &str, b: &str) -> (r: String)
    ensures
        r@ == a@ + b@,
{
    let mut out: Vec<char> = Vec::new();
    append_str(&mut out, a);
    append_str(&mut out, b);
    string_from_chars(&out)
}

/// Refusal of a path by the sandbox.
pub fn denied_path_message(resolved_path: &str) -> (r: String)
    ensures
        r@ == "安全策略拒绝访问: "@ + resolved_path@,
{
    two("安全策略拒绝访问: ", resolved_path)
}

/// Refusal of a dangerous command.
pub fn dangerous_command_message(danger: &str, command: &str) -> (r: String)
    ensures
        r@ == "危险命令已阻止 ("@ + danger@ + "): "@ + command@,
{
    let mut out: Vec<char> = Vec::new();
    append_str(&mut out, "危险命令已阻止 (");
    append_str(&mut out, danger);
    append_str(&mut out, "): ");
    append_str(&mut out, command);
    string_from_chars(&out)
}

/// Refusal of a command directory by the sandbox.
pub fn denied_dir_message(dir: &str) -> (r: String)
    ensures
        r@ == "安全策略拒绝在该目录执行命令: "@ + dir@,
{
    two("安全策略拒绝在该目录执行命令: ", dir)
}

/// Text reported after writing a file.
pub fn written_message(path: &str) -> (r: String)
    ensures
        r@ == "文件已创建/更新: "@ + path@,
{
    two("文件已创建/更新: ", path)
}

/// Text reported after deleting a file.
pub fn deleted_message(path: &str) -> (r: String)
    ensures
        r@ == "文件已删除: "@ + path@,
{
    two("文件已删除: ", path)
}

/// Text reported for a directory listing.
pub fn listing_message(path: &str, entries: &Vec<String>) -> (r: String)
    ensures
        r@ == "目录 "@ + path@ + " 的内容:\n"@ + join(views(entries@), "\n"@),
{
    let mut out: Vec<char> = Vec::new();
    append_str(&mut out, "目录 ");
    append_str(&mut out, path);
    append_str(&mut out, " 的内容:\n");
    let j = join_strings(entries, "\n");
    append_str(&mut out, j.as_str());
    string_from_chars(&out)
}

/// One listing entry: a directory or file marker and the name.
pub fn listing_entry(name: &str, is_dir: bool) -> (r: String)
    ensures
        r@ == (if is_dir { "[目录]"@ } else { "[文件]"@ }) + " "@ + name@,
{
    let mut out: Vec<char> = Vec::new();
    if is_dir {
        append_str(&mut out, "[目录]");
    } else {
        append_str(&mut out, "[文件]");
    }
    append_str(&mut out, " ");
    append_str(&mut out, name);
    string_from_chars(&out)
}

/// The text of a command's output, before truncation.
pub fn command_output_text(stdout: &str, stderr: &str) -> (r: String)
    ensures
        r@ == command_text(stdout@, stderr@),
{
    let so = str_chars(stdout);
    let se = str_chars(stderr);
    let mut out: Vec<char> = Vec::new();
    if trim_chars(&so).len() > 0 {
        append_str(&mut out, "输出:\n");
        append_chars(&mut out, &so);
    }
    if trim_chars(&se).len() > 0 {
        if out.len() > 0 {
            append_str(&mut out, "\n");
        }
        append_str(&mut out, "错误输出:\n");
        append_chars(&mut out, &se);
    }
    if out.len() == 0 {
        return "命令执行完成（无输出）".to_owned();
    }
    assert(out@ =~= command_text(stdout@, stderr@));
    string_from_chars(&out)
}

/// Cuts output longer than 10000 bytes at that byte (which must fall on a
/// character boundary) and marks the cut.
pub fn truncate_output(text: &str) -> (r: String)
    requires
        byte_len(text@) > 10000 ==> prefix_chars_for_bytes(text@, 10000) is Some,
    ensures
        r@ == truncated(text@),
{
    let cs = str_chars(text);
    if byte_len_exceeds(&cs, 10000) {
        match char_index_at_byte(&cs, 10000) {
            Some(k) => {
                let mut out: Vec<char> = Vec::new();
                let mut i: usize = 0;
                while i < k
                    invariant
                        i <= k,
                        prefix_chars_for_bytes(cs@, 10000) == Some(k as nat),
                        out@ == cs@.take(i as int),
                    decreases k - i,
                {
                    proof {
                        let w = choose|w: nat| w <= cs@.len() && byte_len(cs@.take(w as int)) == 10000;
                        assert(w <= cs@.len() && byte_len(cs@.take(w as int)) == 10000);
                    }
                    out.push(cs[i]);
                    i = i + 1;
                    assert(out@ =~= cs@.take(i as int));
                }
                append_str(&mut out, "\n...（输出已截断）");
                string_from_chars(&out)
            },
            None => text.to_owned(),
        }
    } else {
        text.to_owned()
    }
}

/// The tool's result: a success with its text, or an error with it.
pub fn op_result(call: &ToolCall, ok: bool, text: String, elapsed_ms: u64) -> (r: ToolResult)
    ensures
        r.call_id == call.id,
        r.execution_time_ms == elapsed_ms,
        ok ==> r.output == text && r.error is None,
        !ok ==> r.output@.len() == 0 && r.error == Some(text),
{
    if ok {
        ToolResult::success(call.id.clone(), text, elapsed_ms)
    } else {
        ToolResult::error(call.id.clone(), text, elapsed_ms)
    }
}

fn def(name: &str, description: &str, parameters: &str) -> (r: ToolDefinition)
    ensures
        r.name@ == name@,
        r.description@ == description@,
        r.parameters@ == parameters@,
{
    ToolDefinition { name: name.to_owned(), description: description.to_owned(), parameters: parameters.to_owned() }
}

/// Names of the built-in tools, in the order they are listed.
pub open spec fn builtin_names() -> Seq<Seq<char>> {
    seq!["read_file"@, "write_file"@, "list_directory"@, "delete_file"@, "run_command"@]
}

/// The built-in tools: name, description and parameter schema (JSON text,
/// keys sorted), in the order they are listed.
pub open spec fn builtin_tools() -> Seq<(Seq<char>, Seq<char>, Seq<char>)> {
    seq![
        ("read_file"@, "读取文件内容"@, "{\"properties\":{\"path\":{\"description\":\"文件路径\",\"type\":\"string\"}},\"required\":[\"path\"],\"type\":\"object\"}"@),
        ("write_file"@, "创建或覆写文件"@, "{\"properties\":{\"content\":{\"description\":\"文件内容\",\"type\":\"string\"},\"path\":{\"description\":\"文件路径\",\"type\":\"string\"}},\"required\":[\"path\",\"content\"],\"type\":\"object\"}"@),
        ("list_directory"@, "列出目录内容"@, "{\"properties\":{\"path\":{\"description\":\"目录路径\",\"type\":\"string\"}},\"required\":[\"path\"],\"type\":\"object\"}"@),
        ("delete_file"@, "删除文件"@, "{\"properties\":{\"path\":{\"description\":\"文件路径\",\"type\":\"string\"}},\"required\":[\"path\"],\"type\":\"object\"}"@),
        ("run_command"@, "执行命令行命令"@, "{\"properties\":{\"command\":{\"description\":\"要执行的命令\",\"type\":\"string\"},\"cwd\":{\"description\":\"工作目录（可选）\",\"type\":\"string\"}},\"required\":[\"command\"],\"type\":\"object\"}"@),
    ]
}

/// The built-in tools with their parameter schemas (JSON text, keys sorted).
pub fn list_tools() -> (r: Vec<ToolDefinition>)
    ensures
        r@.len() == 5,
        forall|i: int| 0 <= i < 5 ==> r@[i].name@ == builtin_names()[i],
        forall|i: int| 0 <= i < 5 ==> (#[trigger] r@[i].name@, r@[i].description@, r@[i].parameters@) == builtin_tools()[i],
{
    let mut r: Vec<ToolDefinition> = Vec::new();
    r.push(def("read_file", "读取文件内容", "{\"properties\":{\"path\":{\"description\":\"文件路径\",\"type\":\"string\"}},\"required\":[\"path\"],\"type\":\"object\"}"));
    r.push(def("write_file", "创建或覆写文件", "{\"properties\":{\"content\":{\"description\":\"文件内容\",\"type\":\"string\"},\"path\":{\"description\":\"文件路径\",\"type\":\"string\"}},\"required\":[\"path\",\"content\"],\"type\":\"object\"}"));
    r.push(def("list_directory", "列出目录内容", "{\"properties\":{\"path\":{\"description\":\"目录路径\",\"type\":\"string\"}},\"required\":[\"path\"],\"type\":\"object\"}"));
    r.push(def("delete_file", "删除文件", "{\"properties\":{\"path\":{\"description\":\"文件路径\",\"type\":\"string\"}},\"required\":[\"path\"],\"type\":\"object\"}"));
    r.push(def("run_command", "执行命令行命令", "{\"properties\":{\"command\":{\"description\":\"要执行的命令\",\"type\":\"string\"},\"cwd\":{\"description\":\"工作目录（可选）\",\"type\":\"string\"}},\"required\":[\"command\"],\"type\":\"object\"}"));
    r
}

} // verus!
