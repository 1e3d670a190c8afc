//! Skill activation before a run: the file names that the request mentions,
//! and how the activated skills' context and tool allow-list enter the agent.
use vstd::prelude::*;
use crate::agent::run::{first_user_request, first_user_text, text_msg};
use crate::agent::Agent;
use crate::providers::types::{msgs_view, BlockView, ContentBlock, MessageRole, MsgView, UnifiedMessage};
use crate::text::{
    byte_len, byte_len_exceeds, char_is_ws, contains_chars, contains_seq, is_ws, str_chars,
    str_contains, string_from_chars, views,
};

verus! {

/// The characters that separate words of a request: white space, back-ticks
/// and quotes.
pub open spec fn is_word_sep(c: char) -> bool {
    is_ws(c) || c == '`' || c == '\'' || c == '"'
}

/// ASCII punctuation that is trimmed off a word; `.`, `/`, `\` and `_` stay,
/// as they belong to paths.
pub open spec fn is_trim_punct(c: char) -> bool {
    let v = c as u32;
    &&& (0x21 <= v <= 0x2F || 0x3A <= v <= 0x40 || 0x5B <= v <= 0x60 || 0x7B <= v <= 0x7E)
    &&& c != '.'
    &&& c != '/'
    &&& c != '\\'
    &&& c != '_'
}

/// `w` without its leading trimmed punctuation.
pub open spec fn trim_front(w: Seq<char>) -> Seq<char>
    decreases w.len(),
{
    if w.len() > 0 && is_trim_punct(w[0]) {
        trim_front(w.drop_first())
    } else {
        w
    }
}

/// `w` without its trailing trimmed punctuation.
pub open spec fn trim_back(w: Seq<char>) -> Seq<char>
    decreases w.len(),
{
    if w.len() > 0 && is_trim_punct(w.last()) {
        trim_back(w.drop_last())
    } else {
        w
    }
}

/// `w` with trimmed punctuation removed at both ends.
pub open spec fn trim_punct(w: Seq<char>) -> Seq<char> {
    trim_back(trim_front(w))
}

/// The words of `s` between separators, empty ones included, as `split`
/// gives them (one empty word for the empty text).
pub open spec fn split_words(s: Seq<char>) -> Seq<Seq<char>>
    decreases s.len(),
{
    if s.len() == 0 {
        seq![Seq::<char>::empty()]
    } else {
        let p = split_words(s.drop_last());
        if is_word_sep(s.last()) {
            p.push(Seq::<char>::empty())
        } else {
            p.update(p.len() - 1, p.last().push(s.last()))
        }
    }
}

/// A trimmed word that looks like a file name: it holds a dot and is longer
/// than two bytes.
pub open spec fn path_like(w: Seq<char>) -> bool {
    contains_seq(w, seq!['.']) && byte_len(w) > 2
}

/// The path-like trimmed words among `words`, in order.
pub open spec fn paths_of(words: Seq<Seq<char>>) -> Seq<Seq<char>>
    decreases words.len(),
{
    if words.len() == 0 {
        Seq::empty()
    } else {
        let p = paths_of(words.drop_last());
        if path_like(trim_punct(words.last())) {
            p.push(trim_punct(words.last()))
        } else {
            p
        }
    }
}

/// The file names that a request mentions.
pub open spec fn mentioned_paths(task: Seq<char>) -> Seq<Seq<char>> {
    paths_of(split_words(task))
}

proof fn lemma_split_words_nonempty(s: Seq<char>)
    ensures
        split_words(s).len() >= 1,
    decreases s.len(),
{
    if s.len() > 0 {
        lemma_split_words_nonempty(s.drop_last());
    }
}

fn word_sep(c: char) -> (b: bool)
    ensures
        b == is_word_sep(c),
{
    char_is_ws(c) || c == '`' || c == '\'' || c == '"'
}

fn trim_punct_char(c: char) -> (b: bool)
    ensures
        b == is_trim_punct(c),
{
    let v = c as u32;
    ((0x21 <= v && v <= 0x2F) || (0x3A <= v && v <= 0x40) || (0x5B <= v && v <= 0x60) || (0x7B <= v && v <= 0x7E))
        && c != '.' && c != '/' && c != '\\' && c != '_'
}

/// Removes trimmed punctuation at both ends of a word.
pub fn trim_punct_chars(w: &Vec<char>) -> (r: Vec<char>)
    ensures
        r@ == trim_punct(w@),
{
    let n = w.len();
    let mut lo: usize = 0;
    assert(w@.subrange(0, n as int) =~= w@);
    while lo < n && trim_punct_char(w[lo])
        invariant
            n == w.len(),
            lo <= n,
            trim_front(w@) == trim_front(w@.subrange(lo as int, n as int)),
        decreases n - lo,
    {
        assert(w@.subrange(lo as int, n as int).drop_first() =~= w@.subrange(lo + 1, n as int));
        lo = lo + 1;
    }
    assert(trim_front(w@) == w@.subrange(lo as int, n as int));
    let mut hi: usize = n;
    while hi > lo && trim_punct_char(w[hi - 1])
        invariant
            n == w.len(),
            lo <= hi <= n,
            trim_back(w@.subrange(lo as int, n as int)) == trim_back(w@.subrange(lo as int, hi as int)),
        decreases hi - lo,
    {
        assert(w@.subrange(lo as int, hi as int).drop_last() =~= w@.subrange(lo as int, hi - 1));
        hi = hi - 1;
    }
    let mut out: Vec<char> = Vec::new();
    let mut i: usize = lo;
    while i < hi
        invariant
            lo <= i <= hi,
            hi <= n,
            n == w.len(),
            out@ == w@.subrange(lo as int, i as int),
        decreases hi - i,
    {
        out.push(w[i]);
        i = i + 1;
        assert(out@ =~= w@.subrange(lo as int, i as int));
    }
    out
}

/// Whether a trimmed word looks like a file name.
fn is_path_like(t: &Vec<char>) -> (b: bool)
    ensures
        b == path_like(t@),
{
    let dot: Vec<char> = vec!['.'];
    assert(dot@ =~= seq!['.']);
    contains_chars(t, &dot) && byte_len_exceeds(t, 2)
}

/// The file names that a request mentions: its words (split at white
/// space, back-ticks and quotes), with ASCII punctuation other than `.`, `/`,
/// `\` and `_` trimmed off, that hold a dot and are longer than two bytes.
pub fn candidate_file_paths(task: &str) -> (r: Vec<String>)
    ensures
        views(r@) == mentioned_paths(task@),
{
    let cs = str_chars(task);
    let n = cs.len();
    let mut out: Vec<String> = Vec::new();
    let mut cur: Vec<char> = Vec::new();
    let ghost mut done: Seq<Seq<char>> = Seq::empty();
    assert(cs@.take(0) =~= Seq::<char>::empty());
    let mut i: usize = 0;
    while i < n
        invariant
            n == cs.len(),
            cs@ == task@,
            i <= n,
            split_words(cs@.take(i as int)) == done.push(cur@),
            views(out@) == paths_of(done),
        decreases n - i,
    {
        let c = cs[i];
        proof {
            assert(cs@.take(i + 1).drop_last() =~= cs@.take(i as int));
            assert(cs@.take(i + 1).last() == c);
        }
        if word_sep(c) {
            let t = trim_punct_chars(&cur);
            if is_path_like(&t) {
                let ghost before = out@;
                out.push(string_from_chars(&t));
                assert(views(out@) =~= views(before).push(t@));
            }
            proof {
                assert(done.push(cur@).drop_last() =~= done);
                done = done.push(cur@);
            }
            cur = Vec::new();
            assert(split_words(cs@.take(i + 1)) =~= done.push(cur@));
        } else {
            let ghost old_cur = cur@;
            cur.push(c);
            assert(split_words(cs@.take(i + 1)) =~= done.push(cur@));
        }
        i = i + 1;
    }
    assert(cs@.take(n as int) =~= cs@);
    let t = trim_punct_chars(&cur);
    proof {
        assert(done.push(cur@).drop_last() =~= done);
    }
    if is_path_like(&t) {
        let ghost before = out@;
        out.push(string_from_chars(&t));
        assert(views(out@) =~= views(before).push(t@));
    }
    out
}

/// The heading that marks the context of activated skills.
pub open spec fn skills_marker() -> Seq<char> {
    "[已激活的 Skills — 已针对当前任务自动挂载扩展能力]"@
}

/// Some user message of the context holds a text block with the marker.
pub open spec fn has_skills_context(ctx: Seq<MsgView>) -> bool {
    exists|i: int, j: int|
        0 <= i < ctx.len() && ctx[i].role == MessageRole::User && 0 <= j < ctx[i].content.len()
            && (#[trigger] ctx[i].content[j] matches BlockView::Text(t) && contains_seq(t, skills_marker()))
}

/// The context after the skills' context `c` was applied: in front as a
/// user message, unless a user message already holds the skills heading.
pub open spec fn with_skills_context(ctx: Seq<MsgView>, c: Option<Seq<char>>) -> Seq<MsgView> {
    match c {
        Some(t) => if has_skills_context(ctx) {
            ctx
        } else {
            seq![text_msg(MessageRole::User, t)] + ctx
        },
        None => ctx,
    }
}

/// A skills context that carries the skills heading enters the
/// conversation once: after it was applied the heading is there, and
/// applying it again changes nothing.
pub proof fn law_skills_context_once(ctx: Seq<MsgView>, c: Seq<char>)
    requires
        contains_seq(c, skills_marker()),
    ensures
        has_skills_context(with_skills_context(ctx, Some(c))),
        with_skills_context(with_skills_context(ctx, Some(c)), Some(c)) == with_skills_context(ctx, Some(c)),
{
    let once = with_skills_context(ctx, Some(c));
    if !has_skills_context(ctx) {
        assert(once[0] == text_msg(MessageRole::User, c));
        assert(once[0].content[0] == BlockView::Text(c));
    }
}

fn message_has_marker(m: &UnifiedMessage) -> (b: bool)
    ensures
        b == exists|j: int| 0 <= j < m@.content.len()
            && (#[trigger] m@.content[j] matches BlockView::Text(t) && contains_seq(t, skills_marker())),
{
    let mut j: usize = 0;
    while j < m.content.len()
        invariant
            j <= m.content.len(),
            forall|k: int| 0 <= k < j ==> !(#[trigger] m@.content[k] matches BlockView::Text(t) && contains_seq(t, skills_marker())),
        decreases m.content.len() - j,
    {
        assert(m@.content[j as int] == m.content@[j as int]@);
        match &m.content[j] {
            ContentBlock::Text { text } => {
                if str_contains(text.as_str(), "[已激活的 Skills — 已针对当前任务自动挂载扩展能力]") {
                    return true;
                }
            },
            ContentBlock::Image { .. } => {},
        }
        j = j + 1;
    }
    false
}

impl Agent {
    /// The request that skills are matched against: the first text of the
    /// first user message.
    pub fn skill_request(&self) -> (r: String)
        ensures
            r@ == first_user_text(self.ctx()),
    {
        first_user_request(&self.context)
    }

    /// Applies the skills activated for a request. With an empty request
    /// nothing changes. Otherwise the skills' context, when there is one,
    /// goes in front as a user message unless a user message already holds
    /// the skills heading, and the allow-list is taken when none is set.
    pub fn apply_skills(&mut self, request: &str, skill_context: Option<String>, allowed: Option<Vec<String>>)
        ensures
            request@.len() == 0 ==> final(self).ctx() == old(self).ctx() && final(self).allowed_tools == old(self).allowed_tools,
            request@.len() > 0 ==> final(self).ctx() == with_skills_context(
                old(self).ctx(),
                match skill_context { Some(c) => Some(c@), None => None },
            ),
            request@.len() > 0 ==> final(self).allowed_tools == (if old(self).allowed_tools is None {
                allowed
            } else {
                old(self).allowed_tools
            }),
            final(self).steps == old(self).steps,
            final(self).config == old(self).config,
            final(self).tools() == old(self).tools(),
            final(self).prompt_tokens == old(self).prompt_tokens,
            final(self).completion_tokens == old(self).completion_tokens,
            final(self).spawn_count == old(self).spawn_count,
            final(self).total_child_runs == old(self).total_child_runs,
            final(self).depth == old(self).depth,
    {
        if request.unicode_len() == 0 {
            return;
        }
        match skill_context {
            Some(c) => {
                let ghost cv = self.ctx();
                let mut found = false;
                let mut i: usize = 0;
                while i < self.context.len() && !found
                    invariant
                        i <= self.context.len(),
                        cv == msgs_view(self.context@),
                        !found ==> forall|a: int, b: int|
                            0 <= a < i && cv[a].role == MessageRole::User && 0 <= b < cv[a].content.len()
                                ==> !(#[trigger] cv[a].content[b] matches BlockView::Text(t) && contains_seq(t, skills_marker())),
                        found ==> has_skills_context(cv),
                    decreases self.context.len() - i + (if found { 0int } else { 1int }),
                {
                    assert(cv[i as int] == self.context@[i as int]@);
                    if self.context[i].role == MessageRole::User && message_has_marker(&self.context[i]) {
                        found = true;
                    } else {
                        i = i + 1;
                    }
                }
                if !found {
                    let m = UnifiedMessage::text(MessageRole::User, c);
                    self.context.insert(0, m);
                    assert(self.ctx() =~= seq![text_msg(MessageRole::User, c@)] + cv);
                }
            },
            None => {},
        }
        if self.allowed_tools.is_none() {
            self.allowed_tools = allowed;
        }
    }
}

} // verus!
