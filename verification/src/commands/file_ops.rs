//! The workspace panel's file commands: the checks made before a file or
//! folder is read, the preview of a file, and the listing of a folder.
use vstd::prelude::*;
use crate::agent::str_equal;
use crate::text::{
    append_chars, append_str, decimal, decimal_chars_u64, lowercase, starts_with_seq, str_chars,
    str_starts_with, string_from_chars, to_lowercase,
};

verus! {

/// An entry of a folder listing.
#[derive(Debug, Clone)]
pub struct FileEntry {
    pub name: String,
    pub path: String,
    pub is_dir: bool,
    pub size: u64,
}

/// What the preview pane shows of a file.
#[derive(Debug, Clone)]
pub struct FilePreviewInfo {
    pub name: String,
    pub path: String,
    pub size: u64,
    pub is_executable: bool,
    pub file_type: String,
    pub preview_content: Option<String>,
}

/// The largest file shown as text (10 MiB).
pub const MAX_TEXT_BYTES: u64 = 10485760;

/// The largest file read as bytes (50 MiB).
pub const MAX_READ_BYTES: u64 = 52428800;

/// The refusal of a path that should name a file, when it names nothing or
/// a folder.
pub fn file_target_error(path: &str, exists: bool, is_dir: bool) -> (r: Option<String>)
    ensures
        !exists ==> (r matches Some(e) && e@ == "文件不存在: "@ + path@),
        exists && is_dir ==> (r matches Some(e) && e@ == "路径是目录，不是文件: "@ + path@),
        exists && !is_dir ==> r is None,
{
    let mut out: Vec<char> = Vec::new();
    if !exists {
        append_str(&mut out, "文件不存在: ");
    } else if is_dir {
        append_str(&mut out, "路径是目录，不是文件: ");
    } else {
        return None;
    }
    append_str(&mut out, path);
    Some(string_from_chars(&out))
}

/// The refusal of a path that should name a folder, when it names nothing
/// or a file.
pub fn dir_target_error(path: &str, exists: bool, is_dir: bool) -> (r: Option<String>)
    ensures
        !exists ==> (r matches Some(e) && e@ == "路径不存在: "@ + path@),
        exists && !is_dir ==> (r matches Some(e) && e@ == "不是目录: "@ + path@),
        exists && is_dir ==> r is None,
{
    let mut out: Vec<char> = Vec::new();
    if !exists {
        append_str(&mut out, "路径不存在: ");
    } else if !is_dir {
        append_str(&mut out, "不是目录: ");
    } else {
        return None;
    }
    append_str(&mut out, path);
    Some(string_from_chars(&out))
}

/// The refusal of a file too large to show as text.
pub fn text_size_error(size: u64) -> (r: Option<String>)
    ensures
        size > MAX_TEXT_BYTES ==> (r matches Some(e) && e@ == "文件过大（超过 10MB），无法预览"@),
        size <= MAX_TEXT_BYTES ==> r is None,
{
    if size > MAX_TEXT_BYTES {
        Some("文件过大（超过 10MB），无法预览".to_owned())
    } else {
        None
    }
}

/// The refusal of a file too large to read as bytes.
pub fn bytes_size_error(size: u64) -> (r: Option<String>)
    ensures
        size > MAX_READ_BYTES ==> (r matches Some(e) && e@ == "文件过大（超过 50MB）"@),
        size <= MAX_READ_BYTES ==> r is None,
{
    if size > MAX_READ_BYTES {
        Some("文件过大（超过 50MB）".to_owned())
    } else {
        None
    }
}

/// The extensions (in lower case) of files previewed as text.
pub open spec fn text_extensions() -> Seq<Seq<char>> {
    seq!["txt"@, "md"@, "json"@, "xml"@, "html"@, "css"@, "js"@, "ts"@, "rs"@, "py"@, "sh"@]
}

/// Whether a lower-case extension is one of a text file.
pub fn is_text_extension(ext: &str) -> (b: bool)
    ensures
        b == text_extensions().contains(ext@),
{
    let exts: [&str; 11] = ["txt", "md", "json", "xml", "html", "css", "js", "ts", "rs", "py", "sh"];
    assert(exts@.map_values(|e: &str| e@) =~= text_extensions());
    let mut i: usize = 0;
    while i < 11
        invariant
            i <= 11,
            exts@.map_values(|e: &str| e@) == text_extensions(),
            forall|k: int| 0 <= k < i ==> text_extensions()[k] != ext@,
        decreases 11 - i,
    {
        assert(text_extensions()[i as int] == exts@[i as int]@);
        if str_equal(exts[i], ext) {
            assert(text_extensions()[i as int] == ext@);
            return true;
        }
        i = i + 1;
    }
    false
}

/// How a file is previewed.
#[derive(Debug, Clone)]
pub enum PreviewPlan {
    /// Too large: no preview.
    Skip,
    /// A text file: its content is shown.
    ReadText,
    /// Another file: this description is shown.
    Describe(String),
}

/// The description shown for a file that is not text.
pub open spec fn file_description(name: Seq<char>, size: nat, ext: Seq<char>) -> Seq<char> {
    "文件: "@ + name + "\n大小: "@ + decimal(size) + " 字节\n类型: "@ + ext
}

/// How a file of this name, size and lower-case extension is previewed.
pub fn preview_plan(name: &str, size: u64, ext: &str) -> (r: PreviewPlan)
    ensures
        size > MAX_TEXT_BYTES ==> r is Skip,
        size <= MAX_TEXT_BYTES && text_extensions().contains(ext@) ==> r is ReadText,
        size <= MAX_TEXT_BYTES && !text_extensions().contains(ext@) ==> (r matches PreviewPlan::Describe(d)
            && d@ == file_description(name@, size as nat, ext@)),
{
    if size > MAX_TEXT_BYTES {
        return PreviewPlan::Skip;
    }
    if is_text_extension(ext) {
        return PreviewPlan::ReadText;
    }
    let mut out: Vec<char> = Vec::new();
    append_str(&mut out, "文件: ");
    append_str(&mut out, name);
    append_str(&mut out, "\n大小: ");
    let digits = decimal_chars_u64(size);
    append_chars(&mut out, &digits);
    append_str(&mut out, " 字节\n类型: ");
    append_str(&mut out, ext);
    PreviewPlan::Describe(string_from_chars(&out))
}

/// The preview of a file: its name, path, size and preview text; files are
/// never marked executable and their type is `unknown`.
pub fn preview_info(name: String, path: String, size: u64, preview_content: Option<String>) -> (r: FilePreviewInfo)
    ensures
        r.name == name,
        r.path == path,
        r.size == size,
        !r.is_executable,
        r.file_type@ == "unknown"@,
        r.preview_content == preview_content,
{
    FilePreviewInfo { name, path, size, is_executable: false, file_type: "unknown".to_owned(), preview_content }
}

/// The entries of a listing that are not hidden (whose names do not start
/// with a dot), in order.
pub open spec fn visible(entries: Seq<FileEntry>) -> Seq<FileEntry>
    decreases entries.len(),
{
    if entries.len() == 0 {
        Seq::empty()
    } else {
        let p = visible(entries.drop_last());
        if starts_with_seq(entries.last().name@, "."@) {
            p
        } else {
            p.push(entries.last())
        }
    }
}

/// Drops the hidden entries of a listing.
pub fn visible_entries(entries: &Vec<FileEntry>) -> (r: Vec<FileEntry>)
    ensures
        r@ == visible(entries@),
{
    let mut out: Vec<FileEntry> = Vec::new();
    let mut i: usize = 0;
    while i < entries.len()
        invariant
            i <= entries.len(),
            out@ == visible(entries@.take(i as int)),
        decreases entries.len() - i,
    {
        proof {
            assert(entries@.take(i + 1).drop_last() =~= entries@.take(i as int));
        }
        let e = &entries[i];
        if !str_starts_with(e.name.as_str(), ".") {
            let copy = FileEntry { name: e.name.clone(), path: e.path.clone(), is_dir: e.is_dir, size: e.size };
            assert(copy == entries@[i as int]);
            out.push(copy);
        }
        i = i + 1;
        assert(out@ =~= visible(entries@.take(i as int)));
    }
    assert(entries@.take(entries.len() as int) =~= entries@);
    out
}

/// Character-wise lexicographic order of texts (the order of `String`'s
/// comparison, as UTF-8 keeps code-point order).
pub open spec fn lex_le(a: Seq<char>, b: Seq<char>) -> bool
    decreases a.len(),
{
    if a.len() == 0 {
        true
    } else if b.len() == 0 {
        false
    } else if (a[0] as u32) < (b[0] as u32) {
        true
    } else if (a[0] as u32) > (b[0] as u32) {
        false
    } else {
        lex_le(a.drop_first(), b.drop_first())
    }
}

proof fn lemma_char_injective(x: char, y: char)
    ensures
        x != y ==> x as u32 != y as u32,
{
    vstd::utf8::char_u32_cast(x, x as u32);
    vstd::utf8::char_u32_cast(y, y as u32);
}

proof fn lemma_lex_total(a: Seq<char>, b: Seq<char>)
    ensures
        lex_le(a, b) || lex_le(b, a),
    decreases a.len(),
{
    if a.len() > 0 && b.len() > 0 && a[0] as u32 == b[0] as u32 {
        lemma_lex_total(a.drop_first(), b.drop_first());
    }
}

proof fn lemma_lex_trans(a: Seq<char>, b: Seq<char>, c: Seq<char>)
    requires
        lex_le(a, b),
        lex_le(b, c),
    ensures
        lex_le(a, c),
    decreases a.len(),
{
    if a.len() > 0 && b.len() > 0 && c.len() > 0 && a[0] as u32 == b[0] as u32 && b[0] as u32 == c[0] as u32 {
        lemma_lex_trans(a.drop_first(), b.drop_first(), c.drop_first());
    }
}

/// The key a listing is ordered by: folders first, then names compared in
/// lower case.
pub open spec fn entry_key(e: FileEntry) -> (bool, Seq<char>) {
    (e.is_dir, lowercase(e.name@))
}

/// `x` comes no later than `y` in a listing.
pub open spec fn key_le(x: (bool, Seq<char>), y: (bool, Seq<char>)) -> bool {
    (x.0 && !y.0) || (x.0 == y.0 && lex_le(x.1, y.1))
}

proof fn lemma_key_total(x: (bool, Seq<char>), y: (bool, Seq<char>))
    ensures
        key_le(x, y) || key_le(y, x),
{
    lemma_lex_total(x.1, y.1);
}

proof fn lemma_key_trans(x: (bool, Seq<char>), y: (bool, Seq<char>), z: (bool, Seq<char>))
    requires
        key_le(x, y),
        key_le(y, z),
    ensures
        key_le(x, z),
{
    if x.0 == y.0 && y.0 == z.0 {
        lemma_lex_trans(x.1, y.1, z.1);
    }
}

/// A listing in order: folders first, then by lower-case name.
pub open spec fn listing_sorted(s: Seq<FileEntry>) -> bool {
    forall|i: int, j: int| 0 <= i < j < s.len() ==> key_le(entry_key(#[trigger] s[i]), entry_key(#[trigger] s[j]))
}

fn lex_le_chars(a: &Vec<char>, b: &Vec<char>) -> (r: bool)
    ensures
        r == lex_le(a@, b@),
{
    let mut i: usize = 0;
    assert(a@.skip(0) =~= a@);
    assert(b@.skip(0) =~= b@);
    while i < a.len() && i < b.len() && a[i] == b[i]
        invariant
            i <= a.len(),
            i <= b.len(),
            lex_le(a@, b@) == lex_le(a@.skip(i as int), b@.skip(i as int)),
        decreases a.len() - i,
    {
        assert(a@.skip(i as int).drop_first() =~= a@.skip(i + 1));
        assert(b@.skip(i as int).drop_first() =~= b@.skip(i + 1));
        i = i + 1;
    }
    if i == a.len() {
        true
    } else if i == b.len() {
        false
    } else {
        assert(a@.skip(i as int)[0] == a@[i as int]);
        assert(b@.skip(i as int)[0] == b@[i as int]);
        assert(a@[i as int] != b@[i as int]);
        proof {
            lemma_char_injective(a@[i as int], b@[i as int]);
        }
        let x = a[i] as u32;
        let y = b[i] as u32;
        assert(x != y);
        x < y
    }
}

fn key_le_exec(xd: bool, x: &Vec<char>, yd: bool, y: &Vec<char>) -> (r: bool)
    ensures
        r == key_le((xd, x@), (yd, y@)),
{
    (xd && !yd) || (xd == yd && lex_le_chars(x, y))
}

/// Where an entry of key `k` goes in a listing: after the leading entries
/// whose key is not greater.
pub open spec fn insert_pos(s: Seq<FileEntry>, k: (bool, Seq<char>)) -> nat
    decreases s.len(),
{
    if s.len() == 0 {
        0
    } else if key_le(entry_key(s[0]), k) {
        1 + insert_pos(s.drop_first(), k)
    } else {
        0
    }
}

/// The stable ordering of a listing: each entry, in turn, goes after the
/// entries placed before it whose key is not greater, so entries of equal
/// key keep their order.
pub open spec fn stable_listing(s: Seq<FileEntry>) -> Seq<FileEntry>
    decreases s.len(),
{
    if s.len() == 0 {
        Seq::empty()
    } else {
        let r = stable_listing(s.drop_last());
        r.insert(insert_pos(r, entry_key(s.last())) as int, s.last())
    }
}

proof fn lemma_insert_pos(s: Seq<FileEntry>, k: (bool, Seq<char>), p: int)
    requires
        0 <= p <= s.len(),
        forall|t: int| 0 <= t < p ==> key_le(entry_key(#[trigger] s[t]), k),
        p == s.len() || !key_le(entry_key(s[p]), k),
    ensures
        insert_pos(s, k) == p,
    decreases p,
{
    if p > 0 {
        let d = s.drop_first();
        assert(key_le(entry_key(s[0]), k));
        assert forall|t: int| 0 <= t < p - 1 implies key_le(entry_key(#[trigger] d[t]), k) by {
            assert(d[t] == s[t + 1]);
        }
        if p < s.len() {
            assert(d[p - 1] == s[p]);
        }
        lemma_insert_pos(d, k, p - 1);
    }
}

/// Orders a listing: folders before files, each group by lower-case name;
/// entries of equal key keep their order.
pub fn sort_listing(entries: &Vec<FileEntry>) -> (r: Vec<FileEntry>)
    ensures
        r@ == stable_listing(entries@),
        listing_sorted(r@),
        r@.to_multiset() == entries@.to_multiset(),
{
    broadcast use vstd::seq_lib::group_to_multiset_ensures;
    let mut out: Vec<FileEntry> = Vec::new();
    let mut keys: Vec<(bool, Vec<char>)> = Vec::new();
    let mut i: usize = 0;
    while i < entries.len()
        invariant
            i <= entries.len(),
            keys.len() == out.len(),
            forall|k: int| 0 <= k < out.len() ==> #[trigger] keys@[k].0 == out@[k].is_dir
                && keys@[k].1@ == lowercase(out@[k].name@),
            listing_sorted(out@),
            out@.to_multiset() == entries@.take(i as int).to_multiset(),
            out@ == stable_listing(entries@.take(i as int)),
        decreases entries.len() - i,
    {
        let e = &entries[i];
        let copy = FileEntry { name: e.name.clone(), path: e.path.clone(), is_dir: e.is_dir, size: e.size };
        assert(copy == entries@[i as int]);
        let low = to_lowercase(copy.name.as_str());
        let kc = str_chars(low.as_str());
        let kd = copy.is_dir;
        let mut p: usize = 0;
        assert(forall|k: int| 0 <= k < out.len() ==> #[trigger] keys@[k].0 == out@[k].is_dir
            && keys@[k].1@ == lowercase(out@[k].name@));
        while p < keys.len() && key_le_exec(keys[p].0, &keys[p].1, kd, &kc)
            invariant
                p <= keys.len(),
                keys.len() == out.len(),
                forall|k: int| 0 <= k < out.len() ==> #[trigger] keys@[k].0 == out@[k].is_dir
                    && keys@[k].1@ == lowercase(out@[k].name@),
                forall|t: int| 0 <= t < p ==> key_le(entry_key(#[trigger] out@[t]), (kd, kc@)),
            decreases keys.len() - p,
        {
            p = p + 1;
        }
        let ghost old_out = out@;
        let ghost ke = (kd, kc@);
        proof {
            assert(entry_key(copy) == ke);
            lemma_insert_pos(old_out, ke, p as int);
            let t1 = entries@.take(i + 1);
            assert(t1.drop_last() =~= entries@.take(i as int));
            assert(t1.last() == entries@[i as int]);
            if p < old_out.len() {
                assert(!key_le(entry_key(old_out[p as int]), ke));
                lemma_key_total(entry_key(old_out[p as int]), ke);
            }
        }
        out.insert(p, copy);
        keys.insert(p, (kd, kc));
        proof {
            let s = out@;
            assert(s == old_out.insert(p as int, copy));
            assert forall|a: int, b: int| 0 <= a < b < s.len() implies key_le(entry_key(#[trigger] s[a]), entry_key(#[trigger] s[b])) by {
                if b < p {
                    assert(s[a] == old_out[a] && s[b] == old_out[b]);
                } else if b == p {
                    assert(s[a] == old_out[a]);
                } else if a < p {
                    assert(s[a] == old_out[a] && s[b] == old_out[b - 1]);
                    assert(key_le(ke, entry_key(old_out[p as int])));
                    if b - 1 > p {
                        lemma_key_trans(ke, entry_key(old_out[p as int]), entry_key(old_out[b - 1]));
                    }
                    lemma_key_trans(entry_key(old_out[a]), ke, entry_key(old_out[b - 1]));
                } else if a == p {
                    assert(s[b] == old_out[b - 1]);
                    if b - 1 > p {
                        lemma_key_trans(ke, entry_key(old_out[p as int]), entry_key(old_out[b - 1]));
                    }
                } else {
                    assert(s[a] == old_out[a - 1] && s[b] == old_out[b - 1]);
                }
            }
            assert forall|k: int| 0 <= k < out.len() implies #[trigger] keys@[k].0 == out@[k].is_dir
                && keys@[k].1@ == lowercase(out@[k].name@) by {
                if k < p {
                } else if k == p {
                } else {
                    assert(out@[k] == old_out[k - 1]);
                }
            }
            assert(entries@.take(i + 1) =~= entries@.take(i as int).push(entries@[i as int]));
            vstd::seq_lib::to_multiset_insert(old_out, p as int, copy);
            vstd::seq_lib::to_multiset_build(entries@.take(i as int), entries@[i as int]);
        }
        i = i + 1;
    }
    assert(entries@.take(entries.len() as int) =~= entries@);
    out
}

/// The message after a file or folder was deleted.
pub fn deleted_message(name: &str) -> (r: String)
    ensures
        r@ == "已删除: "@ + name@,
{
    let mut out: Vec<char> = Vec::new();
    append_str(&mut out, "已删除: ");
    append_str(&mut out, name);
    string_from_chars(&out)
}

} // verus!
