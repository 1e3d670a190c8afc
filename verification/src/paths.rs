//! Path rules of the file tools (Unix paths): component normalisation, the
//! protected-path blacklist and the sandbox check. The caller resolves paths
//! on disk (`canonicalize`) and hands the results in.
use vstd::prelude::*;
use crate::text::{
    append_chars, append_str, contains_seq, join, starts_with_seq, str_chars, str_contains,
    str_starts_with, string_from_chars, views, lowercase, to_lowercase,
};

verus! {

/// `s` split at every `sep` (an empty text gives one empty piece).
pub open spec fn split_on(s: Seq<char>, sep: char) -> Seq<Seq<char>>
    decreases s.len(),
{
    if s.len() == 0 {
        seq![Seq::empty()]
    } else {
        let w = split_on(s.drop_last(), sep);
        if s.last() == sep {
            w.push(Seq::empty())
        } else {
            w.update(w.len() - 1, w.last().push(s.last()))
        }
    }
}

pub proof fn lemma_split_on_nonempty(s: Seq<char>, sep: char)
    ensures
        split_on(s, sep).len() >= 1,
    decreases s.len(),
{
    if s.len() > 0 {
        lemma_split_on_nonempty(s.drop_last(), sep);
    }
}

/// A text without the separator is one piece.
pub proof fn lemma_split_on_whole(w: Seq<char>, sep: char)
    requires
        !w.contains(sep),
    ensures
        split_on(w, sep) == seq![w],
    decreases w.len(),
{
    if w.len() > 0 {
        assert(!w.drop_last().contains(sep)) by {
            if w.drop_last().contains(sep) {
                let k = choose|k: int| 0 <= k < w.drop_last().len() && w.drop_last()[k] == sep;
                assert(w[k] == sep);
            }
        }
        lemma_split_on_whole(w.drop_last(), sep);
        assert(w.last() != sep) by {
            assert(w[w.len() - 1] == w.last());
        }
        assert(w.drop_last().push(w.last()) =~= w);
        assert(seq![w.drop_last()].update(0, w.drop_last().push(w.last())) =~= seq![w]);
    } else {
        assert(w =~= Seq::<char>::empty());
    }
}

/// The last piece never holds the separator.
pub proof fn lemma_split_on_last(s: Seq<char>, sep: char)
    ensures
        !split_on(s, sep).last().contains(sep),
    decreases s.len(),
{
    lemma_split_on_nonempty(s, sep);
    if s.len() > 0 {
        lemma_split_on_last(s.drop_last(), sep);
        lemma_split_on_nonempty(s.drop_last(), sep);
        let w = split_on(s.drop_last(), sep);
        if s.last() != sep {
            let n = w.last().push(s.last());
            assert(split_on(s, sep).last() == n);
            assert(!n.contains(sep)) by {
                if n.contains(sep) {
                    let k = choose|k: int| 0 <= k < n.len() && n[k] == sep;
                    if k < w.last().len() {
                        assert(w.last()[k] == sep);
                    }
                }
            }
        } else {
            assert(split_on(s, sep).last() =~= Seq::<char>::empty());
        }
    }
}

/// Splitting a text cut in two: the pieces of the first part but its last,
/// then the pieces of that last piece followed by the second part.
pub proof fn lemma_split_on_concat(x: Seq<char>, y: Seq<char>, sep: char)
    ensures
        split_on(x + y, sep) == split_on(x, sep).drop_last() + split_on(split_on(x, sep).last() + y, sep),
    decreases y.len(),
{
    let d = split_on(x, sep).drop_last();
    let l = split_on(x, sep).last();
    lemma_split_on_nonempty(x, sep);
    if y.len() == 0 {
        lemma_split_on_last(x, sep);
        assert(l + y =~= l);
        lemma_split_on_whole(l, sep);
        assert(x + y =~= x);
        assert(split_on(x, sep) =~= d + seq![l]);
    } else {
        let y1 = y.drop_last();
        let c = y.last();
        lemma_split_on_concat(x, y1, sep);
        assert((x + y).drop_last() =~= x + y1);
        assert((x + y).last() == c);
        assert((l + y).drop_last() =~= l + y1);
        assert((l + y).last() == c);
        let s1 = split_on(l + y1, sep);
        lemma_split_on_nonempty(l + y1, sep);
        if c == sep {
            assert((d + s1).push(Seq::<char>::empty()) =~= d + s1.push(Seq::<char>::empty()));
        } else {
            assert((d + s1).update((d + s1).len() - 1, (d + s1).last().push(c)) =~= d + s1.update(
                s1.len() - 1,
                s1.last().push(c),
            ));
        }
    }
}

/// The named components of a path: the pieces between `/` that are neither
/// empty nor `.` (`..` stays).
pub open spec fn named(pieces: Seq<Seq<char>>) -> Seq<Seq<char>>
    decreases pieces.len(),
{
    if pieces.len() == 0 {
        Seq::empty()
    } else {
        let rest = named(pieces.drop_last());
        let p = pieces.last();
        if p.len() == 0 || p == "."@ {
            rest
        } else {
            rest.push(p)
        }
    }
}

/// Components of a path after its root.
pub open spec fn segments(path: Seq<char>) -> Seq<Seq<char>> {
    named(split_on(path, '/'))
}

/// The path is absolute (starts with `/`).
pub open spec fn is_absolute(path: Seq<char>) -> bool {
    path.len() > 0 && path[0] == '/'
}

/// One step of normalisation: `..` removes the last component when that is a
/// name; where there is none to remove it is dropped at the root and kept in
/// a relative path, so no leading `..` is lost; any other component is
/// appended.
pub open spec fn norm_step(acc: Seq<Seq<char>>, root: bool, seg: Seq<char>) -> Seq<Seq<char>> {
    if seg == ".."@ {
        if acc.len() > 0 && acc.last() != ".."@ {
            acc.drop_last()
        } else if root {
            acc
        } else {
            acc.push(".."@)
        }
    } else {
        acc.push(seg)
    }
}

pub open spec fn norm_fold(segs: Seq<Seq<char>>, root: bool) -> Seq<Seq<char>>
    decreases segs.len(),
{
    if segs.len() == 0 {
        Seq::empty()
    } else {
        norm_step(norm_fold(segs.drop_last(), root), root, segs.last())
    }
}

/// A path written from its root flag and components.
pub open spec fn render(root: bool, comps: Seq<Seq<char>>) -> Seq<char> {
    (if root {
        "/"@
    } else {
        Seq::empty()
    }) + join(comps, "/"@)
}

/// Normalised form of a path, without touching the file system.
pub open spec fn normalized(path: Seq<char>) -> Seq<char> {
    render(is_absolute(path), norm_fold(segments(path), is_absolute(path)))
}

/// `base` is a component-wise prefix of `target` (`Path::starts_with`).
pub open spec fn path_starts_with(target: Seq<char>, base: Seq<char>) -> bool {
    is_absolute(target) == is_absolute(base) && segments(base).len() <= segments(target).len()
        && segments(target).take(segments(base).len() as int) == segments(base)
}

fn split_exec(s: &Vec<char>, sep: char) -> (r: Vec<Vec<char>>)
    ensures
        r@.map_values(|v: Vec<char>| v@) == split_on(s@, sep),
{
    let mut r: Vec<Vec<char>> = Vec::new();
    r.push(Vec::new());
    assert(r@.map_values(|v: Vec<char>| v@) =~= split_on(s@.take(0), sep));
    let mut i: usize = 0;
    while i < s.len()
        invariant
            i <= s@.len(),
            r@.len() >= 1,
            r@.map_values(|v: Vec<char>| v@) == split_on(s@.take(i as int), sep),
        decreases s.len() - i,
    {
        proof {
            assert(s@.take(i + 1).drop_last() =~= s@.take(i as int));
            assert(s@.take(i + 1).last() == s@[i as int]);
        }
        let ghost before = r@.map_values(|v: Vec<char>| v@);
        if s[i] == sep {
            r.push(Vec::new());
            assert(r@.map_values(|v: Vec<char>| v@) =~= before.push(Seq::empty()));
        } else {
            let last = r.len() - 1;
            let mut piece = r.remove(last);
            let ghost pv = piece@;
            piece.push(s[i]);
            r.push(piece);
            assert(r@.map_values(|v: Vec<char>| v@) =~= before.update(before.len() - 1, pv.push(s@[i as int])));
        }
        i = i + 1;
    }
    assert(s@.take(i as int) =~= s@);
    r
}

fn is_dot(p: &Vec<char>) -> (b: bool)
    ensures
        b == (p@ == "."@),
{
    proof {
        reveal_strlit(".");
    }
    let r = p.len() == 1 && p[0] == '.';
    if r {
        assert(p@ =~= "."@);
    }
    r
}

fn is_dotdot(p: &Vec<char>) -> (b: bool)
    ensures
        b == (p@ == ".."@),
{
    proof {
        reveal_strlit("..");
    }
    let r = p.len() == 2 && p[0] == '.' && p[1] == '.';
    if r {
        assert(p@ =~= ".."@);
    }
    r
}

/// The named components of a path.
pub fn path_segments(path: &str) -> (r: Vec<Vec<char>>)
    ensures
        r@.map_values(|v: Vec<char>| v@) == segments(path@),
{
    let cs = str_chars(path);
    let pieces = split_exec(&cs, '/');
    let ghost pv = pieces@.map_values(|v: Vec<char>| v@);
    let mut r: Vec<Vec<char>> = Vec::new();
    let mut i: usize = 0;
    while i < pieces.len()
        invariant
            i <= pieces@.len(),
            pv == pieces@.map_values(|v: Vec<char>| v@),
            r@.map_values(|v: Vec<char>| v@) == named(pv.take(i as int)),
        decreases pieces.len() - i,
    {
        proof {
            assert(pv.take(i + 1).drop_last() =~= pv.take(i as int));
            assert(pv.take(i + 1).last() == pieces@[i as int]@);
        }
        let ghost before = r@.map_values(|v: Vec<char>| v@);
        if pieces[i].len() > 0 && !is_dot(&pieces[i]) {
            let mut copy: Vec<char> = Vec::new();
            append_chars(&mut copy, &pieces[i]);
            r.push(copy);
            assert(r@.map_values(|v: Vec<char>| v@) =~= before.push(pieces@[i as int]@));
        }
        i = i + 1;
    }
    assert(pv.take(i as int) =~= pv);
    r
}

fn starts_with_slash(path: &str) -> (b: bool)
    ensures
        b == is_absolute(path@),
{
    let cs = str_chars(path);
    cs.len() > 0 && cs[0] == '/'
}

fn render_exec(root: bool, comps: &Vec<Vec<char>>) -> (r: String)
    ensures
        r@ == render(root, comps@.map_values(|v: Vec<char>| v@)),
{
    let ghost cv = comps@.map_values(|v: Vec<char>| v@);
    let mut out: Vec<char> = Vec::new();
    if root {
        out.push('/');
    }
    let ghost head = out@;
    assert(head =~= if root { "/"@ } else { Seq::<char>::empty() }) by {
        reveal_strlit("/");
    }
    let mut i: usize = 0;
    while i < comps.len()
        invariant
            i <= comps@.len(),
            cv == comps@.map_values(|v: Vec<char>| v@),
            out@ == head + join(cv.take(i as int), "/"@),
        decreases comps.len() - i,
    {
        if i > 0 {
            append_str(&mut out, "/");
        }
        append_chars(&mut out, &comps[i]);
        proof {
            assert(cv.take(i + 1).drop_last() =~= cv.take(i as int));
            assert(cv[i as int] == comps@[i as int]@);
            if i == 0 {
                assert(join(cv.take(0), "/"@) =~= Seq::<char>::empty());
            }
        }
        i = i + 1;
        assert(out@ =~= head + join(cv.take(i as int), "/"@));
    }
    assert(cv.take(i as int) =~= cv);
    string_from_chars(&out)
}

/// Resolves `.` and `..` in a path by its components alone (no symbolic
/// links are followed): the fallback when a path cannot be resolved on disk.
pub fn normalize_components(path: &str) -> (r: String)
    ensures
        r@ == normalized(path@),
{
    let root = starts_with_slash(path);
    let segs = path_segments(path);
    let ghost sv = segs@.map_values(|v: Vec<char>| v@);
    let mut out: Vec<Vec<char>> = Vec::new();
    let mut i: usize = 0;
    while i < segs.len()
        invariant
            i <= segs@.len(),
            sv == segs@.map_values(|v: Vec<char>| v@),
            out@.map_values(|v: Vec<char>| v@) == norm_fold(sv.take(i as int), root),
        decreases segs.len() - i,
    {
        proof {
            assert(sv.take(i + 1).drop_last() =~= sv.take(i as int));
            assert(sv.take(i + 1).last() == segs@[i as int]@);
        }
        let ghost before = out@.map_values(|v: Vec<char>| v@);
        if is_dotdot(&segs[i]) {
            let last_is_name = out.len() > 0 && !is_dotdot(&out[out.len() - 1]);
            if last_is_name {
                assert(before.last() == out@[out.len() - 1]@);
                out.pop();
                assert(out@.map_values(|v: Vec<char>| v@) =~= before.drop_last());
            } else if !root {
                assert(before.len() > 0 ==> before.last() == out@[out.len() - 1]@);
                let mut dd: Vec<char> = Vec::new();
                dd.push('.');
                dd.push('.');
                proof {
                    reveal_strlit("..");
                }
                assert(dd@ =~= ".."@);
                out.push(dd);
                assert(out@.map_values(|v: Vec<char>| v@) =~= before.push(".."@));
            }
        } else {
            let mut copy: Vec<char> = Vec::new();
            append_chars(&mut copy, &segs[i]);
            out.push(copy);
            assert(out@.map_values(|v: Vec<char>| v@) =~= before.push(segs@[i as int]@));
        }
        i = i + 1;
    }
    assert(sv.take(i as int) =~= sv);
    render_exec(root, &out)
}

/// Whether `base` is a component-wise prefix of `target`.
pub fn starts_with_path(target: &str, base: &str) -> (b: bool)
    ensures
        b == path_starts_with(target@, base@),
{
    if starts_with_slash(target) != starts_with_slash(base) {
        return false;
    }
    let t = path_segments(target);
    let p = path_segments(base);
    let ghost tv = t@.map_values(|v: Vec<char>| v@);
    let ghost pv = p@.map_values(|v: Vec<char>| v@);
    assert(pv.len() == p@.len() && tv.len() == t@.len());
    if p.len() > t.len() {
        return false;
    }
    let mut i: usize = 0;
    while i < p.len()
        invariant
            i <= p@.len() <= t@.len(),
            tv == t@.map_values(|v: Vec<char>| v@),
            pv == p@.map_values(|v: Vec<char>| v@),
            tv == segments(target@),
            pv == segments(base@),
            is_absolute(target@) == is_absolute(base@),
            forall|k: int| 0 <= k < i ==> tv[k] == pv[k],
        decreases p.len() - i,
    {
        let a = string_from_chars(&t[i]);
        let b = string_from_chars(&p[i]);
        assert(a@ == tv[i as int] && b@ == pv[i as int]);
        if !(a == b) {
            assert(tv.take(pv.len() as int)[i as int] != pv[i as int]);
            return false;
        }
        i = i + 1;
    }
    assert(tv.take(pv.len() as int) =~= pv);
    true
}

/// `sub` appended to `home` as `Path::join` does (a `/` is added unless
/// `home` is empty or already ends with one).
pub open spec fn joined(home: Seq<char>, sub: Seq<char>) -> Seq<char> {
    if home.len() == 0 || home.last() == '/' {
        home + sub
    } else {
        home + "/"@ + sub
    }
}

/// Joins a relative path onto a directory.
pub fn join_path(home: &str, sub: &str) -> (r: String)
    ensures
        r@ == joined(home@, sub@),
{
    let h = str_chars(home);
    let mut out: Vec<char> = Vec::new();
    append_chars(&mut out, &h);
    if !(h.len() == 0 || h[h.len() - 1] == '/') {
        append_str(&mut out, "/");
    }
    append_str(&mut out, sub);
    string_from_chars(&out)
}

/// Protected paths before resolution: credential and application
/// directories under the home directory (when it is known), then the system
/// directories.
pub open spec fn blacklist(home: Option<Seq<char>>) -> Seq<Seq<char>> {
    (match home {
        Some(h) => seq![
            joined(h, ".ssh"@),
            joined(h, ".aws"@),
            joined(h, ".gnupg"@),
            joined(h, ".config/gcloud"@),
            joined(h, ".kube"@),
            joined(h, ".docker"@),
            joined(h, ".netrc"@),
            joined(h, ".crosschat"@),
        ],
        None => Seq::empty(),
    }) + seq!["/etc"@, "/root"@, "/var/root"@]
}

/// The protected paths, before the caller resolves each on disk.
pub fn blacklist_candidates(home: &Option<String>) -> (r: Vec<String>)
    ensures
        views(r@) == blacklist(crate::providers::types::opt_view(*home)),
{
    let mut r: Vec<String> = Vec::new();
    match home {
        Some(h) => {
            r.push(join_path(h.as_str(), ".ssh"));
            r.push(join_path(h.as_str(), ".aws"));
            r.push(join_path(h.as_str(), ".gnupg"));
            r.push(join_path(h.as_str(), ".config/gcloud"));
            r.push(join_path(h.as_str(), ".kube"));
            r.push(join_path(h.as_str(), ".docker"));
            r.push(join_path(h.as_str(), ".netrc"));
            r.push(join_path(h.as_str(), ".crosschat"));
        },
        None => {},
    }
    r.push("/etc".to_owned());
    r.push("/root".to_owned());
    r.push("/var/root".to_owned());
    assert(views(r@) =~= blacklist(crate::providers::types::opt_view(*home)));
    r
}

/// A resolved path falls in a protected directory: it equals one of the
/// resolved protected paths or lies below it.
pub open spec fn forbidden(target: Seq<char>, banned: Seq<Seq<char>>) -> bool {
    exists|i: int| 0 <= i < banned.len() && (target == banned[i] || path_starts_with(target, banned[i]))
}

/// Whether the resolved `target` lies in one of the resolved protected
/// directories.
pub fn is_path_forbidden(target: &str, banned: &Vec<String>) -> (b: bool)
    ensures
        b == forbidden(target@, views(banned@)),
{
    let mut i: usize = 0;
    while i < banned.len()
        invariant
            i <= banned@.len(),
            forall|k: int| 0 <= k < i ==> !(target@ == views(banned@)[k] || path_starts_with(target@, views(banned@)[k])),
        decreases banned.len() - i,
    {
        assert(views(banned@)[i as int] == banned@[i as int]@);
        if crate::agent::str_equal(target, banned[i].as_str()) || starts_with_path(target, banned[i].as_str()) {
            return true;
        }
        i = i + 1;
    }
    false
}

/// The check of every file command: refused with an error when the path is
/// protected.
pub fn ensure_path_allowed(target: &str, banned: &Vec<String>) -> (r: Result<(), String>)
    ensures
        forbidden(target@, views(banned@)) ==> (r matches Err(e) && e@ == "拒绝访问受保护路径"@),
        !forbidden(target@, views(banned@)) ==> r is Ok,
{
    if is_path_forbidden(target, banned) {
        return Err("拒绝访问受保护路径".to_owned());
    }
    Ok(())
}

/// Roots of system areas the tool sandbox never touches.
pub open spec fn blocked_prefixes() -> Seq<Seq<char>> {
    seq![
        "/etc/"@,
        "/boot/"@,
        "/sys/"@,
        "/proc/"@,
        "/dev/"@,
        "C:\\Windows\\System32\\config"@,
        "C:\\Windows\\System32\\drivers"@,
        "C:\\Program Files\\WindowsApps"@,
    ]
}

/// Credential directories the tool sandbox never touches.
pub open spec fn sensitive_markers() -> Seq<Seq<char>> {
    seq!["/.ssh/"@, "/.gnupg/"@, "/.aws/"@, "/.config/gcloud/"@]
}

/// The sandbox's view of a path that cannot be resolved on disk: its named
/// components with `..` applied, joined without any root.
pub open spec fn sandbox_clean(path: Seq<char>) -> Seq<char> {
    join(norm_fold(segments(path), true), "/"@)
}

/// The sandbox admits a path (resolved on disk when possible) unless it
/// starts with a blocked prefix or contains a credential directory.
pub open spec fn sandbox_allows(checked: Seq<char>) -> bool {
    &&& forall|i: int| 0 <= i < blocked_prefixes().len() ==> !starts_with_seq(checked, #[trigger] blocked_prefixes()[i])
    &&& forall|i: int| 0 <= i < sensitive_markers().len() ==> !contains_seq(checked, #[trigger] sensitive_markers()[i])
}

/// The path the sandbox checks: the resolved path, or else the cleaned one.
pub open spec fn sandbox_checked(path: Seq<char>, canonical: Option<Seq<char>>) -> Seq<char> {
    match canonical {
        Some(c) => c,
        None => sandbox_clean(path),
    }
}

/// Tool sandbox: whether a tool may touch `path`, given its resolved form
/// when it exists on disk.
pub fn is_path_allowed(path: &str, canonical: &Option<String>) -> (b: bool)
    ensures
        b == sandbox_allows(sandbox_checked(path@, crate::providers::types::opt_view(*canonical))),
{
    let checked: String = match canonical {
        Some(c) => c.clone(),
        None => {
            let segs = path_segments(path);
            let ghost sv = segs@.map_values(|v: Vec<char>| v@);
            let mut out: Vec<Vec<char>> = Vec::new();
            let mut i: usize = 0;
            while i < segs.len()
                invariant
                    i <= segs@.len(),
                    sv == segs@.map_values(|v: Vec<char>| v@),
                    out@.map_values(|v: Vec<char>| v@) == norm_fold(sv.take(i as int), true),
                    forall|k: int| 0 <= k < out@.len() ==> (#[trigger] out@[k])@ != ".."@,
                decreases segs.len() - i,
            {
                proof {
                    assert(sv.take(i + 1).drop_last() =~= sv.take(i as int));
                    assert(sv.take(i + 1).last() == segs@[i as int]@);
                }
                let ghost before = out@.map_values(|v: Vec<char>| v@);
                if is_dotdot(&segs[i]) {
                    if out.len() > 0 {
                        assert(before.last() == out@[out.len() - 1]@);
                        out.pop();
                        assert(out@.map_values(|v: Vec<char>| v@) =~= before.drop_last());
                    }
                } else {
                    let mut copy: Vec<char> = Vec::new();
                    append_chars(&mut copy, &segs[i]);
                    out.push(copy);
                    assert(out@.map_values(|v: Vec<char>| v@) =~= before.push(segs@[i as int]@));
                }
                i = i + 1;
            }
            assert(sv.take(i as int) =~= sv);
            let r = render_exec(false, &out);
            assert(r@ =~= sandbox_clean(path@));
            r
        },
    };
    let c = checked.as_str();
    let blocked = str_starts_with(c, "/etc/") || str_starts_with(c, "/boot/") || str_starts_with(c, "/sys/")
        || str_starts_with(c, "/proc/") || str_starts_with(c, "/dev/") || str_starts_with(
        c,
        "C:\\Windows\\System32\\config",
    ) || str_starts_with(c, "C:\\Windows\\System32\\drivers") || str_starts_with(
        c,
        "C:\\Program Files\\WindowsApps",
    );
    let sensitive = str_contains(c, "/.ssh/") || str_contains(c, "/.gnupg/") || str_contains(c, "/.aws/")
        || str_contains(c, "/.config/gcloud/");
    proof {
        if !blocked {
            assert forall|i: int| 0 <= i < blocked_prefixes().len() implies !starts_with_seq(checked@, #[trigger] blocked_prefixes()[i]) by {
                if i == 0 {} else if i == 1 {} else if i == 2 {} else if i == 3 {} else if i == 4 {} else if i == 5 {} else if i == 6 {} else {}
            }
        }
        if !sensitive {
            assert forall|i: int| 0 <= i < sensitive_markers().len() implies !contains_seq(checked@, #[trigger] sensitive_markers()[i]) by {
                if i == 0 {} else if i == 1 {} else if i == 2 {} else {}
            }
        }
        if blocked {
            assert(!sandbox_allows(checked@)) by {
                if starts_with_seq(checked@, "/etc/"@) { assert(starts_with_seq(checked@, blocked_prefixes()[0])); }
                else if starts_with_seq(checked@, "/boot/"@) { assert(starts_with_seq(checked@, blocked_prefixes()[1])); }
                else if starts_with_seq(checked@, "/sys/"@) { assert(starts_with_seq(checked@, blocked_prefixes()[2])); }
                else if starts_with_seq(checked@, "/proc/"@) { assert(starts_with_seq(checked@, blocked_prefixes()[3])); }
                else if starts_with_seq(checked@, "/dev/"@) { assert(starts_with_seq(checked@, blocked_prefixes()[4])); }
                else if starts_with_seq(checked@, "C:\\Windows\\System32\\config"@) { assert(starts_with_seq(checked@, blocked_prefixes()[5])); }
                else if starts_with_seq(checked@, "C:\\Windows\\System32\\drivers"@) { assert(starts_with_seq(checked@, blocked_prefixes()[6])); }
                else { assert(starts_with_seq(checked@, blocked_prefixes()[7])); }
            }
        }
        if sensitive {
            assert(!sandbox_allows(checked@)) by {
                if contains_seq(checked@, "/.ssh/"@) { assert(contains_seq(checked@, sensitive_markers()[0])); }
                else if contains_seq(checked@, "/.gnupg/"@) { assert(contains_seq(checked@, sensitive_markers()[1])); }
                else if contains_seq(checked@, "/.aws/"@) { assert(contains_seq(checked@, sensitive_markers()[2])); }
                else { assert(contains_seq(checked@, sensitive_markers()[3])); }
            }
        }
    }
    !blocked && !sensitive
}

/// A component as normalisation leaves it: not empty, not `.`, without `/`.
pub open spec fn clean_comp(c: Seq<char>) -> bool {
    c.len() > 0 && c != "."@ && !c.contains('/')
}

/// Components in normal form: all clean, every `..` before every name (a
/// leading run), and no `..` at all below the root.
pub open spec fn normal_form(comps: Seq<Seq<char>>, root: bool) -> bool {
    &&& forall|i: int| 0 <= i < comps.len() ==> clean_comp(#[trigger] comps[i])
    &&& forall|i: int, j: int| #![trigger comps[i], comps[j]] 0 <= i < j < comps.len() && comps[j] == ".."@ ==> comps[i] == ".."@
    &&& root ==> forall|i: int| 0 <= i < comps.len() ==> #[trigger] comps[i] != ".."@
}

proof fn lemma_dots_differ()
    ensures
        "."@ != ".."@,
        ".."@.len() == 2,
        !".."@.contains('/'),
        "/"@ == seq!['/'],
        "."@ == seq!['.'],
{
    reveal_strlit(".");
    reveal_strlit("..");
    reveal_strlit("/");
    assert("."@.len() != ".."@.len());
    assert(!".."@.contains('/')) by {
        if ".."@.contains('/') {
            let k = choose|k: int| 0 <= k < ".."@.len() && ".."@[k] == '/';
            assert(".."@[k] == '.');
        }
    }
    assert("/"@ =~= seq!['/']);
    assert("."@ =~= seq!['.']);
}

proof fn lemma_split_on_pieces(s: Seq<char>, sep: char)
    ensures
        forall|i: int| 0 <= i < split_on(s, sep).len() ==> !(#[trigger] split_on(s, sep)[i]).contains(sep),
    decreases s.len(),
{
    lemma_split_on_nonempty(s, sep);
    if s.len() > 0 {
        lemma_split_on_pieces(s.drop_last(), sep);
        lemma_split_on_nonempty(s.drop_last(), sep);
        let w = split_on(s.drop_last(), sep);
        let r = split_on(s, sep);
        assert forall|i: int| 0 <= i < r.len() implies !(#[trigger] r[i]).contains(sep) by {
            if s.last() == sep {
                if i < w.len() {
                    assert(r[i] == w[i]);
                } else {
                    assert(r[i] =~= Seq::<char>::empty());
                }
            } else if i < w.len() - 1 {
                assert(r[i] == w[i]);
            } else {
                let n = w.last().push(s.last());
                assert(r[i] == n);
                if n.contains(sep) {
                    let k = choose|k: int| 0 <= k < n.len() && n[k] == sep;
                    if k < w.last().len() {
                        assert(w.last()[k] == sep);
                        assert(w[w.len() - 1].contains(sep));
                    }
                }
            }
        }
    }
}

proof fn lemma_named_clean(pieces: Seq<Seq<char>>)
    requires
        forall|i: int| 0 <= i < pieces.len() ==> !(#[trigger] pieces[i]).contains('/'),
    ensures
        forall|i: int| 0 <= i < named(pieces).len() ==> clean_comp(#[trigger] named(pieces)[i]),
    decreases pieces.len(),
{
    if pieces.len() > 0 {
        assert forall|i: int| 0 <= i < pieces.drop_last().len() implies !(#[trigger] pieces.drop_last()[i]).contains('/') by {
            assert(pieces.drop_last()[i] == pieces[i]);
        }
        lemma_named_clean(pieces.drop_last());
        assert(!pieces[pieces.len() - 1].contains('/'));
        let rest = named(pieces.drop_last());
        let r = named(pieces);
        assert forall|i: int| 0 <= i < r.len() implies clean_comp(#[trigger] r[i]) by {
            if i < rest.len() {
                assert(r[i] == rest[i]);
            } else {
                assert(r[i] == pieces.last());
            }
        }
    }
}

proof fn lemma_split_slash()
    ensures
        split_on(seq!['/'], '/') == seq![Seq::<char>::empty(), Seq::<char>::empty()],
{
    let s = seq!['/'];
    assert(s.drop_last() =~= Seq::<char>::empty());
    assert(s.last() == '/');
    let w = split_on(s.drop_last(), '/');
    assert(w == seq![Seq::<char>::empty()]);
    assert(split_on(s, '/') == w.push(Seq::<char>::empty()));
    assert(w.push(Seq::<char>::empty()) =~= seq![Seq::<char>::empty(), Seq::<char>::empty()]);
}

proof fn lemma_norm_fold_normal(segs: Seq<Seq<char>>, root: bool)
    requires
        forall|i: int| 0 <= i < segs.len() ==> clean_comp(#[trigger] segs[i]),
    ensures
        normal_form(norm_fold(segs, root), root),
    decreases segs.len(),
{
    lemma_dots_differ();
    if segs.len() > 0 {
        assert forall|i: int| 0 <= i < segs.drop_last().len() implies clean_comp(#[trigger] segs.drop_last()[i]) by {
            assert(segs.drop_last()[i] == segs[i]);
        }
        lemma_norm_fold_normal(segs.drop_last(), root);
        let acc = norm_fold(segs.drop_last(), root);
        let seg = segs.last();
        assert(clean_comp(segs[segs.len() - 1]));
        let r = norm_fold(segs, root);
        if seg == ".."@ {
            if acc.len() > 0 && acc.last() != ".."@ {
                assert(r == acc.drop_last());
                assert forall|i: int| 0 <= i < r.len() implies clean_comp(#[trigger] r[i]) by {
                    assert(r[i] == acc[i]);
                }
                assert forall|i: int, j: int| #![trigger r[i], r[j]] 0 <= i < j < r.len() && r[j] == ".."@ implies r[i] == ".."@ by {
                    assert(r[i] == acc[i] && r[j] == acc[j]);
                }
                if root {
                    assert forall|i: int| 0 <= i < r.len() implies #[trigger] r[i] != ".."@ by {
                        assert(r[i] == acc[i]);
                    }
                }
            } else if root {
                assert(r == acc);
            } else {
                assert(r == acc.push(".."@));
                assert forall|i: int| 0 <= i < acc.len() implies #[trigger] acc[i] == ".."@ by {
                    assert(acc.last() == acc[acc.len() - 1]);
                    if i < acc.len() - 1 {
                    }
                }
                assert forall|i: int| 0 <= i < r.len() implies clean_comp(#[trigger] r[i]) by {
                    if i < acc.len() {
                        assert(r[i] == acc[i]);
                    }
                }
                assert forall|i: int, j: int| #![trigger r[i], r[j]] 0 <= i < j < r.len() && r[j] == ".."@ implies r[i] == ".."@ by {
                    assert(r[i] == acc[i]);
                }
            }
        } else {
            assert(r == acc.push(seg));
            assert forall|i: int| 0 <= i < r.len() implies clean_comp(#[trigger] r[i]) by {
                if i < acc.len() {
                    assert(r[i] == acc[i]);
                }
            }
            assert forall|i: int, j: int| #![trigger r[i], r[j]] 0 <= i < j < r.len() && r[j] == ".."@ implies r[i] == ".."@ by {
                assert(r[i] == acc[i]);
                if j < acc.len() {
                    assert(r[j] == acc[j]);
                }
            }
            if root {
                assert forall|i: int| 0 <= i < r.len() implies #[trigger] r[i] != ".."@ by {
                    if i < acc.len() {
                        assert(r[i] == acc[i]);
                    }
                }
            }
        }
    }
}

proof fn lemma_norm_fold_fixed(comps: Seq<Seq<char>>, root: bool)
    requires
        normal_form(comps, root),
    ensures
        norm_fold(comps, root) == comps,
    decreases comps.len(),
{
    lemma_dots_differ();
    if comps.len() > 0 {
        let init = comps.drop_last();
        assert(normal_form(init, root)) by {
            assert forall|i: int| 0 <= i < init.len() implies clean_comp(#[trigger] init[i]) by {
                assert(init[i] == comps[i]);
            }
            assert forall|i: int, j: int| #![trigger init[i], init[j]] 0 <= i < j < init.len() && init[j] == ".."@ implies init[i] == ".."@ by {
                assert(init[i] == comps[i] && init[j] == comps[j]);
            }
            if root {
                assert forall|i: int| 0 <= i < init.len() implies #[trigger] init[i] != ".."@ by {
                    assert(init[i] == comps[i]);
                }
            }
        }
        lemma_norm_fold_fixed(init, root);
        if comps.last() == ".."@ {
            assert(comps[comps.len() - 1] == ".."@);
            assert(!root);
            if init.len() > 0 {
                assert(init.last() == comps[init.len() - 1]);
                assert(comps[init.len() - 1] == ".."@);
            }
            assert(init.push(".."@) =~= comps);
        } else {
            assert(init.push(comps.last()) =~= comps);
        }
    }
}

proof fn lemma_join_len(comps: Seq<Seq<char>>)
    requires
        comps.len() > 0,
    ensures
        join(comps, "/"@).len() >= comps[0].len(),
        comps[0].len() > 0 ==> join(comps, "/"@)[0] == comps[0][0],
    decreases comps.len(),
{
    if comps.len() > 1 {
        lemma_join_len(comps.drop_last());
        assert(comps.drop_last()[0] == comps[0]);
    }
}

proof fn lemma_split_join(comps: Seq<Seq<char>>)
    requires
        comps.len() > 0,
        forall|i: int| 0 <= i < comps.len() ==> !(#[trigger] comps[i]).contains('/'),
    ensures
        split_on(join(comps, "/"@), '/') == comps,
    decreases comps.len(),
{
    lemma_dots_differ();
    if comps.len() == 1 {
        assert(!comps[0].contains('/'));
        lemma_split_on_whole(comps[0], '/');
        assert(comps =~= seq![comps[0]]);
    } else {
        let init = comps.drop_last();
        let last = comps.last();
        assert forall|i: int| 0 <= i < init.len() implies !(#[trigger] init[i]).contains('/') by {
            assert(init[i] == comps[i]);
        }
        lemma_split_join(init);
        let j = join(init, "/"@);
        let x = j + "/"@;
        assert(join(comps, "/"@) == x + last);
        assert(x.drop_last() =~= j);
        assert(x.last() == '/');
        lemma_split_on_nonempty(j, '/');
        assert(split_on(x, '/') == split_on(j, '/').push(Seq::<char>::empty()));
        lemma_split_on_concat(x, last, '/');
        assert(split_on(x, '/').drop_last() =~= init);
        assert(split_on(x, '/').last() =~= Seq::<char>::empty());
        assert(Seq::<char>::empty() + last =~= last);
        assert(!comps[comps.len() - 1].contains('/'));
        lemma_split_on_whole(last, '/');
        assert(init + seq![last] =~= comps);
    }
}

proof fn lemma_named_after_empty(comps: Seq<Seq<char>>)
    requires
        forall|i: int| 0 <= i < comps.len() ==> clean_comp(#[trigger] comps[i]),
    ensures
        named(seq![Seq::<char>::empty()] + comps) == comps,
        named(comps) == comps,
    decreases comps.len(),
{
    if comps.len() == 0 {
        let x = seq![Seq::<char>::empty()] + comps;
        assert(x =~= seq![Seq::<char>::empty()]);
        assert(x.drop_last() =~= Seq::<Seq<char>>::empty());
        assert(x.last() =~= Seq::<char>::empty());
        assert(named(x.drop_last()) == Seq::<Seq<char>>::empty());
        assert(named(x) == named(x.drop_last()));
        assert(named(x) =~= comps);
    } else {
        let init = comps.drop_last();
        assert forall|i: int| 0 <= i < init.len() implies clean_comp(#[trigger] init[i]) by {
            assert(init[i] == comps[i]);
        }
        lemma_named_after_empty(init);
        assert((seq![Seq::<char>::empty()] + comps).drop_last() =~= seq![Seq::<char>::empty()] + init);
        assert((seq![Seq::<char>::empty()] + comps).last() == comps.last());
        assert(clean_comp(comps[comps.len() - 1]));
        assert(init.push(comps.last()) =~= comps);
    }
}

/// The components and root of a path rendered from normal-form components
/// are those components and that root.
proof fn lemma_render_reads_back(root: bool, comps: Seq<Seq<char>>)
    requires
        normal_form(comps, root),
    ensures
        is_absolute(render(root, comps)) == root,
        segments(render(root, comps)) == comps,
{
    lemma_dots_differ();
    let j = join(comps, "/"@);
    assert forall|i: int| 0 <= i < comps.len() implies !(#[trigger] comps[i]).contains('/') by {
        assert(clean_comp(comps[i]));
    }
    if comps.len() == 0 {
        lemma_named_after_empty(comps);
        assert(seq![Seq::<char>::empty()] + comps =~= seq![Seq::<char>::empty()]);
        if root {
            assert(render(root, comps) =~= seq!['/']);
            lemma_split_slash();
            let two = seq![Seq::<char>::empty(), Seq::<char>::empty()];
            assert(two.drop_last() =~= seq![Seq::<char>::empty()]);
            assert(seq![Seq::<char>::empty()].drop_last() =~= Seq::<Seq<char>>::empty());
            assert(named(two) == named(two.drop_last()));
            assert(segments(render(root, comps)) =~= comps);
        } else {
            assert(render(root, comps) =~= Seq::<char>::empty());
            assert(seq![Seq::<char>::empty()].drop_last() =~= Seq::<Seq<char>>::empty());
        }
    } else {
        lemma_split_join(comps);
        lemma_join_len(comps);
        assert(clean_comp(comps[0]));
        lemma_named_after_empty(comps);
        if root {
            let r = render(root, comps);
            assert(r =~= seq!['/'] + j);
            lemma_split_slash();
            lemma_split_on_concat(seq!['/'], j, '/');
            assert(seq![Seq::<char>::empty(), Seq::<char>::empty()].drop_last() =~= seq![Seq::<char>::empty()]);
            assert(Seq::<char>::empty() + j =~= j);
        } else {
            let r = render(root, comps);
            assert(r =~= j);
            assert(j[0] == comps[0][0]);
            assert(comps[0][0] != '/') by {
                assert(!comps[0].contains('/'));
            }
        }
    }
}

/// Normalising a path twice gives what normalising it once gives.
pub proof fn law_normalize_idempotent(path: Seq<char>)
    ensures
        normalized(normalized(path)) == normalized(path),
{
    let root = is_absolute(path);
    lemma_split_on_pieces(path, '/');
    lemma_named_clean(split_on(path, '/'));
    let comps = norm_fold(segments(path), root);
    lemma_norm_fold_normal(segments(path), root);
    lemma_render_reads_back(root, comps);
    lemma_norm_fold_fixed(comps, root);
}

/// The sandbox refuses any path that resolves under `/etc/`.
pub proof fn law_sandbox_refuses_etc(checked: Seq<char>)
    requires
        starts_with_seq(checked, "/etc/"@),
    ensures
        !sandbox_allows(checked),
{
    assert(starts_with_seq(checked, blocked_prefixes()[0]));
}

/// The sandbox refuses any path that passes through an `.ssh` directory.
pub proof fn law_sandbox_refuses_ssh(checked: Seq<char>)
    requires
        contains_seq(checked, "/.ssh/"@),
    ensures
        !sandbox_allows(checked),
{
    assert(contains_seq(checked, sensitive_markers()[0]));
}

/// Everything below a protected directory is protected.
pub proof fn law_blacklist_covers_subtree(target: Seq<char>, banned: Seq<Seq<char>>, i: int)
    requires
        0 <= i < banned.len(),
        path_starts_with(target, banned[i]),
    ensures
        forbidden(target, banned),
{
}

} // verus!
