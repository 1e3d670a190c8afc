//! Context compaction: token estimation and folding of old history into a
//! single summary message.
use sha2::Digest;
use vstd::prelude::*;
use vstd::utf8::encode_utf8;
use crate::providers::types::{
    blocks_view, calls_view, msgs_view, opt_view, BlockView, CallView, ContentBlock, ImageSource,
    ImageView, MessageRole, MsgView, ToolCall, UnifiedMessage,
};
use crate::text::{
    append_chars, append_str, byte_len, byte_len_exceeds, char_index_at_byte, chars_byte_len, contains_seq,
    lemma_byte_len_concat, lowercase, newlines_to_spaces, prefix_chars_for_bytes, replace_newlines,
    starts_with_chars, starts_with_seq, str_chars, str_contains, str_starts_with, to_lowercase,
    trim_chars, trim_seq, hex_chars, hex_lower, string_from_chars, join, join_strings, views,
};

verus! {

/// Folds long conversation histories.
pub struct ContextCompactor;

/// Bytes of text counted for one content block (images count nothing).
pub open spec fn block_chars(b: BlockView) -> nat {
    match b {
        BlockView::Text(t) => byte_len(t),
        BlockView::Image(_) => 0,
    }
}

pub open spec fn blocks_chars(bs: Seq<BlockView>) -> nat
    decreases bs.len(),
{
    if bs.len() == 0 {
        0
    } else {
        blocks_chars(bs.drop_last()) + block_chars(bs.last())
    }
}

pub open spec fn calls_chars(cs: Seq<CallView>) -> nat
    decreases cs.len(),
{
    if cs.len() == 0 {
        0
    } else {
        calls_chars(cs.drop_last()) + byte_len(cs.last().name) + byte_len(cs.last().arguments)
    }
}

/// Bytes counted for one message: text blocks, reasoning, and the names and
/// JSON arguments of its tool calls.
pub open spec fn message_chars(m: MsgView) -> nat {
    blocks_chars(m.content) + match m.reasoning_content {
        Some(r) => byte_len(r),
        None => 0,
    } + match m.tool_calls {
        Some(cs) => calls_chars(cs),
        None => 0,
    }
}

pub open spec fn total_chars(ms: Seq<MsgView>) -> nat
    decreases ms.len(),
{
    if ms.len() == 0 {
        0
    } else {
        total_chars(ms.drop_last()) + message_chars(ms.last())
    }
}

/// Estimated tokens: one token per 3.5 bytes (rounded down) plus 20 per message.
pub open spec fn estimate(ms: Seq<MsgView>) -> nat {
    total_chars(ms) * 2 / 7 + ms.len() * 20
}

proof fn lemma_blocks_chars_mono(bs: Seq<BlockView>, i: int)
    requires
        0 <= i <= bs.len(),
    ensures
        blocks_chars(bs.take(i)) <= blocks_chars(bs),
    decreases bs.len() - i,
{
    if i < bs.len() {
        lemma_blocks_chars_mono(bs, i + 1);
        assert(bs.take(i + 1).drop_last() =~= bs.take(i));
    } else {
        assert(bs.take(i) =~= bs);
    }
}

proof fn lemma_calls_chars_mono(cs: Seq<CallView>, i: int)
    requires
        0 <= i <= cs.len(),
    ensures
        calls_chars(cs.take(i)) <= calls_chars(cs),
    decreases cs.len() - i,
{
    if i < cs.len() {
        lemma_calls_chars_mono(cs, i + 1);
        assert(cs.take(i + 1).drop_last() =~= cs.take(i));
    } else {
        assert(cs.take(i) =~= cs);
    }
}

proof fn lemma_total_chars_mono(ms: Seq<MsgView>, i: int)
    requires
        0 <= i <= ms.len(),
    ensures
        total_chars(ms.take(i)) <= total_chars(ms),
    decreases ms.len() - i,
{
    if i < ms.len() {
        lemma_total_chars_mono(ms, i + 1);
        assert(ms.take(i + 1).drop_last() =~= ms.take(i));
    } else {
        assert(ms.take(i) =~= ms);
    }
}

fn message_chars_exec(m: &UnifiedMessage) -> (n: usize)
    requires
        message_chars(m@) <= usize::MAX,
    ensures
        n == message_chars(m@),
{
    let ghost bv = blocks_view(m.content@);
    let mut n: usize = 0;
    let mut i: usize = 0;
    while i < m.content.len()
        invariant
            i <= m.content@.len(),
            bv == blocks_view(m.content@),
            n == blocks_chars(bv.take(i as int)),
            message_chars(m@) <= usize::MAX,
        decreases m.content.len() - i,
    {
        proof {
            assert(bv.take(i + 1).drop_last() =~= bv.take(i as int));
            lemma_blocks_chars_mono(bv, i + 1);
        }
        match &m.content[i] {
            ContentBlock::Text { text } => {
                n = n + text.as_str().len();
            },
            ContentBlock::Image { .. } => {},
        }
        i = i + 1;
    }
    assert(bv.take(i as int) =~= bv);
    match &m.reasoning_content {
        Some(r) => {
            n = n + r.as_str().len();
        },
        None => {},
    }
    match &m.tool_calls {
        Some(cs) => {
            let ghost cv = calls_view(cs@);
            let ghost base = n as nat;
            let mut j: usize = 0;
            while j < cs.len()
                invariant
                    j <= cs@.len(),
                    cv == calls_view(cs@),
                    n == base + calls_chars(cv.take(j as int)),
                    base + calls_chars(cv) <= usize::MAX,
                decreases cs.len() - j,
            {
                proof {
                    assert(cv.take(j + 1).drop_last() =~= cv.take(j as int));
                    lemma_calls_chars_mono(cv, j + 1);
                }
                n = n + cs[j].name.as_str().len();
                n = n + cs[j].arguments.as_str().len();
                j = j + 1;
            }
            assert(cv.take(j as int) =~= cv);
        },
        None => {},
    }
    n
}

fn checked_byte_len(s: &str) -> (r: Option<usize>)
    ensures
        match r {
            Some(n) => n == byte_len(s@),
            None => byte_len(s@) > usize::MAX,
        },
{
    let cs = str_chars(s);
    if byte_len_exceeds(&cs, usize::MAX) {
        None
    } else {
        Some(chars_byte_len(&cs))
    }
}

fn checked_message_chars(m: &UnifiedMessage) -> (r: Option<usize>)
    ensures
        match r {
            Some(n) => n == message_chars(m@),
            None => message_chars(m@) > usize::MAX,
        },
{
    let ghost bv = blocks_view(m.content@);
    let mut n: usize = 0;
    let mut i: usize = 0;
    while i < m.content.len()
        invariant
            i <= m.content@.len(),
            bv == blocks_view(m.content@),
            n == blocks_chars(bv.take(i as int)),
        decreases m.content.len() - i,
    {
        proof {
            assert(bv.take(i + 1).drop_last() =~= bv.take(i as int));
            lemma_blocks_chars_mono(bv, i + 1);
        }
        assert(bv[i as int] == m.content@[i as int]@);
        match &m.content[i] {
            ContentBlock::Text { text } => {
                let len = match checked_byte_len(text.as_str()) {
                    Some(l) => l,
                    None => {
                        proof {
                            lemma_blocks_chars_mono(bv, i + 1);
                            assert(bv.take(bv.len() as int) =~= bv);
                        }
                        return None;
                    },
                };
                match n.checked_add(len) {
                    Some(x) => {
                        n = x;
                    },
                    None => {
                        proof {
                            lemma_blocks_chars_mono(bv, i + 1);
                            assert(bv.take(bv.len() as int) =~= bv);
                        }
                        return None;
                    },
                }
            },
            ContentBlock::Image { .. } => {},
        }
        i = i + 1;
    }
    assert(bv.take(i as int) =~= bv);
    match &m.reasoning_content {
        Some(r) => {
            let len = match checked_byte_len(r.as_str()) {
                Some(l) => l,
                None => {
                    return None;
                },
            };
            match n.checked_add(len) {
                Some(x) => {
                    n = x;
                },
                None => {
                    return None;
                },
            }
        },
        None => {},
    }
    match &m.tool_calls {
        Some(cs) => {
            let ghost cv = calls_view(cs@);
            let ghost base = n as nat;
            let mut j: usize = 0;
            while j < cs.len()
                invariant
                    j <= cs@.len(),
                    cv == calls_view(cs@),
                    n == base + calls_chars(cv.take(j as int)),
                    m@.tool_calls == Some(cv),
                    message_chars(m@) == base + calls_chars(cv),
                decreases cs.len() - j,
            {
                proof {
                    assert(cv.take(j + 1).drop_last() =~= cv.take(j as int));
                    lemma_calls_chars_mono(cv, j + 1);
                    assert(cv[j as int] == cs@[j as int]@);
                }
                let l1 = match checked_byte_len(cs[j].name.as_str()) {
                    Some(l) => l,
                    None => {
                        return None;
                    },
                };
                let l2 = match checked_byte_len(cs[j].arguments.as_str()) {
                    Some(l) => l,
                    None => {
                        return None;
                    },
                };
                let a = match n.checked_add(l1) {
                    Some(x) => x,
                    None => {
                        return None;
                    },
                };
                match a.checked_add(l2) {
                    Some(x) => {
                        n = x;
                    },
                    None => {
                        return None;
                    },
                }
                j = j + 1;
            }
            assert(cv.take(j as int) =~= cv);
        },
        None => {},
    }
    Some(n)
}

fn checked_total_chars(messages: &Vec<UnifiedMessage>) -> (r: Option<usize>)
    ensures
        match r {
            Some(n) => n == total_chars(msgs_view(messages@)),
            None => total_chars(msgs_view(messages@)) > usize::MAX,
        },
{
    let ghost mv = msgs_view(messages@);
    let mut total: usize = 0;
    let mut i: usize = 0;
    while i < messages.len()
        invariant
            i <= messages@.len(),
            mv == msgs_view(messages@),
            total == total_chars(mv.take(i as int)),
        decreases messages.len() - i,
    {
        proof {
            assert(mv.take(i + 1).drop_last() =~= mv.take(i as int));
            lemma_total_chars_mono(mv, i + 1);
            assert(mv[i as int] == messages@[i as int]@);
        }
        let c = match checked_message_chars(&messages[i]) {
            Some(c) => c,
            None => {
                return None;
            },
        };
        match total.checked_add(c) {
            Some(x) => {
                total = x;
            },
            None => {
                return None;
            },
        }
        i = i + 1;
    }
    assert(mv.take(i as int) =~= mv);
    Some(total)
}

proof fn lemma_div7(t: nat)
    ensures
        (t / 7) * 2 + ((t % 7) * 2) / 7 == t * 2 / 7,
{
    assert((t / 7) * 2 + ((t % 7) * 2) / 7 == t * 2 / 7) by (nonlinear_arith);
}

impl ContextCompactor {
    /// Estimated token count of a message list: bytes of text, reasoning and
    /// tool-call names and arguments divided by 3.5 (rounded down), plus 20
    /// per message.
    pub fn estimate_tokens(messages: &[UnifiedMessage]) -> (n: usize)
        requires
            total_chars(msgs_view(messages@)) <= usize::MAX,
            estimate(msgs_view(messages@)) <= usize::MAX,
        ensures
            n == estimate(msgs_view(messages@)),
    {
        let ghost mv = msgs_view(messages@);
        let mut total: usize = 0;
        let mut i: usize = 0;
        while i < messages.len()
            invariant
                i <= messages@.len(),
                mv == msgs_view(messages@),
                total == total_chars(mv.take(i as int)),
                total_chars(mv) <= usize::MAX,
            decreases messages.len() - i,
        {
            proof {
                assert(mv.take(i + 1).drop_last() =~= mv.take(i as int));
                lemma_total_chars_mono(mv, i + 1);
            }
            let c = message_chars_exec(&messages[i]);
            total = total + c;
            i = i + 1;
        }
        assert(mv.take(i as int) =~= mv);
        proof {
            lemma_div7(total as nat);
        }
        let q = total / 7 * 2 + (total % 7) * 2 / 7;
        q + messages.len() * 20
    }
}


// ---------------------------------------------------------------------------
// Classification of frozen (pinned) messages
// ---------------------------------------------------------------------------

/// The text of the first content block, when that block is text.
pub open spec fn first_text(m: MsgView) -> Option<Seq<char>> {
    if m.content.len() > 0 {
        match m.content[0] {
            BlockView::Text(t) => Some(t),
            BlockView::Image(_) => None,
        }
    } else {
        None
    }
}

/// Text that marks a message as frozen: system instructions, the working
/// directory notice, the installed-skills list, or a skill pin.
pub open spec fn is_frozen_text(t: Seq<char>) -> bool {
    ||| starts_with_seq(t, "[系统指令"@)
    ||| starts_with_seq(t, "[当前工作目录"@)
    ||| starts_with_seq(t, "[已安装的 Skills"@)
    ||| contains_seq(t, "Active Skill:"@)
    ||| contains_seq(t, "Skill Pin:"@)
    ||| contains_seq(t, "Pinned Skill:"@)
}

/// Frozen messages are user messages whose first block is such text; they
/// are never folded.
pub open spec fn is_frozen(m: MsgView) -> bool {
    m.role == MessageRole::User && match first_text(m) {
        Some(t) => is_frozen_text(t),
        None => false,
    }
}

/// The frozen messages, in order.
pub open spec fn frozen_part(ms: Seq<MsgView>) -> Seq<MsgView>
    decreases ms.len(),
{
    if ms.len() == 0 {
        Seq::empty()
    } else if is_frozen(ms.last()) {
        frozen_part(ms.drop_last()).push(ms.last())
    } else {
        frozen_part(ms.drop_last())
    }
}

/// The other messages (the foldable history), in order.
pub open spec fn history_part(ms: Seq<MsgView>) -> Seq<MsgView>
    decreases ms.len(),
{
    if ms.len() == 0 {
        Seq::empty()
    } else if is_frozen(ms.last()) {
        history_part(ms.drop_last())
    } else {
        history_part(ms.drop_last()).push(ms.last())
    }
}

fn text_is_frozen(t: &String) -> (b: bool)
    ensures
        b == is_frozen_text(t@),
{
    str_starts_with(t.as_str(), "[系统指令") || str_starts_with(t.as_str(), "[当前工作目录")
        || str_starts_with(t.as_str(), "[已安装的 Skills") || str_contains(
        t.as_str(),
        "Active Skill:",
    ) || str_contains(t.as_str(), "Skill Pin:") || str_contains(t.as_str(), "Pinned Skill:")
}

fn message_is_frozen(m: &UnifiedMessage) -> (b: bool)
    ensures
        b == is_frozen(m@),
{
    if m.role != MessageRole::User {
        return false;
    }
    if m.content.len() == 0 {
        return false;
    }
    match &m.content[0] {
        ContentBlock::Text { text } => text_is_frozen(text),
        ContentBlock::Image { .. } => false,
    }
}

/// Splits messages into (frozen, history), keeping order within each part.
fn partition_frozen(messages: Vec<UnifiedMessage>) -> (r: (Vec<UnifiedMessage>, Vec<UnifiedMessage>))
    ensures
        msgs_view(r.0@) == frozen_part(msgs_view(messages@)),
        msgs_view(r.1@) == history_part(msgs_view(messages@)),
{
    let ghost mv = msgs_view(messages@);
    let mut rest = messages;
    let total_len = rest.len();
    let mut rev: Vec<UnifiedMessage> = Vec::new();
    while rest.len() > 0
        invariant
            mv.len() == total_len,
            mv.len() == rest@.len() + rev@.len(),
            msgs_view(rest@) == mv.take(rest@.len() as int),
            forall|k: int| 0 <= k < rev@.len() ==> #[trigger] rev@[k]@ == mv[mv.len() - 1 - k],
        decreases rest.len(),
    {
        let ghost n = rest@.len();
        proof {
            assert(msgs_view(rest@)[n - 1] == rest@[n - 1]@);
        }
        let m = rest.pop().unwrap();
        rev.push(m);
        assert(msgs_view(rest@) =~= mv.take(rest@.len() as int));
    }
    let mut frozen: Vec<UnifiedMessage> = Vec::new();
    let mut history: Vec<UnifiedMessage> = Vec::new();
    let mut i: usize = 0;
    while rev.len() > 0
        invariant
            mv.len() == i + rev@.len(),
            mv.len() == total_len,
            forall|k: int| 0 <= k < rev@.len() ==> #[trigger] rev@[k]@ == mv[mv.len() - 1 - k],
            msgs_view(frozen@) == frozen_part(mv.take(i as int)),
            msgs_view(history@) == history_part(mv.take(i as int)),
        decreases rev.len(),
    {
        let m = rev.pop().unwrap();
        proof {
            assert(mv.take(i + 1).drop_last() =~= mv.take(i as int));
            assert(m@ == mv[i as int]);
        }
        if message_is_frozen(&m) {
            frozen.push(m);
            assert(msgs_view(frozen@) =~= frozen_part(mv.take(i + 1)));
            assert(msgs_view(history@) =~= history_part(mv.take(i + 1)));
        } else {
            history.push(m);
            assert(msgs_view(frozen@) =~= frozen_part(mv.take(i + 1)));
            assert(msgs_view(history@) =~= history_part(mv.take(i + 1)));
        }
        i = i + 1;
    }
    assert(mv.take(i as int) =~= mv);
    (frozen, history)
}


// ---------------------------------------------------------------------------
// Summary of the folded history
// ---------------------------------------------------------------------------

/// Text that states a hard constraint ("local first", "must", "forbidden").
pub open spec fn is_constraint_text(t: Seq<char>) -> bool {
    contains_seq(t, "本地优先"@) || contains_seq(t, "必须"@) || contains_seq(t, "禁止"@)
}

/// Constraint texts of a block list, each followed by a line feed.
pub open spec fn blocks_constraints(bs: Seq<BlockView>) -> Seq<char>
    decreases bs.len(),
{
    if bs.len() == 0 {
        Seq::empty()
    } else {
        blocks_constraints(bs.drop_last()) + match bs.last() {
            BlockView::Text(t) => if is_constraint_text(t) {
                t.push('\n')
            } else {
                Seq::empty()
            },
            BlockView::Image(_) => Seq::empty(),
        }
    }
}

/// Constraint texts of the folded messages.
pub open spec fn constraints_of(fold: Seq<MsgView>) -> Seq<char>
    decreases fold.len(),
{
    if fold.len() == 0 {
        Seq::empty()
    } else {
        constraints_of(fold.drop_last()) + blocks_constraints(fold.last().content)
    }
}

/// A trimmed line that pins a skill.
pub open spec fn is_skill_line(t: Seq<char>) -> bool {
    starts_with_seq(t, "Active Skill:"@) || starts_with_seq(t, "Skill Pin:"@) || starts_with_seq(
        t,
        "Pinned Skill:"@,
    )
}

/// What one line contributes to the skill pins: the trimmed line and a line
/// feed when it pins a skill.
pub open spec fn line_pin(line: Seq<char>) -> Seq<char> {
    let t = trim_seq(line);
    if is_skill_line(t) {
        t.push('\n')
    } else {
        Seq::empty()
    }
}

/// Scanning a text line by line: pins of the finished lines, and the
/// unfinished last line. Lines end at '\n'; a trailing '\r' and empty lines
/// contribute nothing once trimmed, so this agrees with `str::lines`.
pub open spec fn scan_pins(s: Seq<char>) -> (Seq<char>, Seq<char>)
    decreases s.len(),
{
    if s.len() == 0 {
        (Seq::empty(), Seq::empty())
    } else {
        let prev = scan_pins(s.drop_last());
        if s.last() == '\n' {
            (prev.0 + line_pin(prev.1), Seq::empty())
        } else {
            (prev.0, prev.1.push(s.last()))
        }
    }
}

/// Skill pins found in one text.
pub open spec fn text_pins(t: Seq<char>) -> Seq<char> {
    scan_pins(t).0 + line_pin(scan_pins(t).1)
}

pub open spec fn blocks_pins(bs: Seq<BlockView>) -> Seq<char>
    decreases bs.len(),
{
    if bs.len() == 0 {
        Seq::empty()
    } else {
        blocks_pins(bs.drop_last()) + match bs.last() {
            BlockView::Text(t) => text_pins(t),
            BlockView::Image(_) => Seq::empty(),
        }
    }
}

/// Skill pins of the folded messages.
pub open spec fn pins_of(fold: Seq<MsgView>) -> Seq<char>
    decreases fold.len(),
{
    if fold.len() == 0 {
        Seq::empty()
    } else {
        pins_of(fold.drop_last()) + blocks_pins(fold.last().content)
    }
}

/// Label of a role in the folded log.
pub open spec fn role_label(r: MessageRole) -> Seq<char> {
    match r {
        MessageRole::User => "User"@,
        MessageRole::Assistant => "Assistant"@,
        MessageRole::Tool => "Tool result"@,
    }
}

/// Concatenated text blocks of a message.
pub open spec fn body_of(bs: Seq<BlockView>) -> Seq<char>
    decreases bs.len(),
{
    if bs.len() == 0 {
        Seq::empty()
    } else {
        body_of(bs.drop_last()) + match bs.last() {
            BlockView::Text(t) => t,
            BlockView::Image(_) => Seq::empty(),
        }
    }
}

/// One-line digest of a body: line feeds become spaces, and bodies longer than
/// 80 bytes are cut at byte 80 and followed by "...".
pub open spec fn summary_line(body: Seq<char>) -> Seq<char> {
    if byte_len(body) > 80 {
        newlines_to_spaces(body.take(prefix_chars_for_bytes(body, 80)->0 as int)) + "..."@
    } else {
        newlines_to_spaces(body)
    }
}

/// The body of a message can be cut at byte 80 (or needs no cut).
pub open spec fn summary_cut_ok(m: MsgView) -> bool {
    byte_len(body_of(m.content)) > 80 ==> prefix_chars_for_bytes(body_of(m.content), 80) is Some
}

/// Log lines for the tool calls of an assistant message.
pub open spec fn call_lines(cs: Seq<CallView>) -> Seq<char>
    decreases cs.len(),
{
    if cs.len() == 0 {
        Seq::empty()
    } else {
        call_lines(cs.drop_last()) + "- Assistant Tool call: "@ + cs.last().name + " with args "@
            + cs.last().arguments + "\n"@
    }
}

/// The folded-log entry of one message.
pub open spec fn log_entry(m: MsgView) -> Seq<char> {
    match m.tool_calls {
        Some(cs) => call_lines(cs),
        None => "- "@ + role_label(m.role) + ": "@ + trim_seq(summary_line(body_of(m.content)))
            + "\n"@,
    }
}

/// The folded log of the folded messages.
pub open spec fn folded_log(fold: Seq<MsgView>) -> Seq<char>
    decreases fold.len(),
{
    if fold.len() == 0 {
        Seq::empty()
    } else {
        folded_log(fold.drop_last()) + log_entry(fold.last())
    }
}

fn blocks_constraints_exec(bs: &Vec<ContentBlock>, out: &mut Vec<char>)
    ensures
        final(out)@ == old(out)@ + blocks_constraints(blocks_view(bs@)),
{
    let ghost bv = blocks_view(bs@);
    let mut i: usize = 0;
    while i < bs.len()
        invariant
            i <= bs@.len(),
            bv == blocks_view(bs@),
            out@ == old(out)@ + blocks_constraints(bv.take(i as int)),
        decreases bs.len() - i,
    {
        proof {
            assert(bv.take(i + 1).drop_last() =~= bv.take(i as int));
        }
        match &bs[i] {
            ContentBlock::Text { text } => {
                if str_contains(text.as_str(), "本地优先") || str_contains(text.as_str(), "必须")
                    || str_contains(text.as_str(), "禁止") {
                    append_str(out, text.as_str());
                    out.push('\n');
                }
            },
            ContentBlock::Image { .. } => {},
        }
        i = i + 1;
        assert(out@ =~= old(out)@ + blocks_constraints(bv.take(i as int)));
    }
    assert(bv.take(i as int) =~= bv);
}

fn pin_line(line: &Vec<char>, out: &mut Vec<char>)
    ensures
        final(out)@ == old(out)@ + line_pin(line@),
{
    let t = trim_chars(line);
    let a = str_chars("Active Skill:");
    let b = str_chars("Skill Pin:");
    let c = str_chars("Pinned Skill:");
    if starts_with_chars(&t, &a) || starts_with_chars(&t, &b) || starts_with_chars(&t, &c) {
        append_chars(out, &t);
        out.push('\n');
    }
}

fn text_pins_exec(text: &String, out: &mut Vec<char>)
    ensures
        final(out)@ == old(out)@ + text_pins(text@),
{
    let cs = str_chars(text.as_str());
    let mut cur: Vec<char> = Vec::new();
    let mut i: usize = 0;
    while i < cs.len()
        invariant
            i <= cs@.len(),
            cs@ == text@,
            out@ == old(out)@ + scan_pins(cs@.take(i as int)).0,
            cur@ == scan_pins(cs@.take(i as int)).1,
        decreases cs.len() - i,
    {
        proof {
            assert(cs@.take(i + 1).drop_last() =~= cs@.take(i as int));
        }
        if cs[i] == '\n' {
            pin_line(&cur, out);
            cur = Vec::new();
        } else {
            cur.push(cs[i]);
        }
        i = i + 1;
    }
    assert(cs@.take(i as int) =~= cs@);
    pin_line(&cur, out);
}

fn blocks_pins_exec(bs: &Vec<ContentBlock>, out: &mut Vec<char>)
    ensures
        final(out)@ == old(out)@ + blocks_pins(blocks_view(bs@)),
{
    let ghost bv = blocks_view(bs@);
    let mut i: usize = 0;
    while i < bs.len()
        invariant
            i <= bs@.len(),
            bv == blocks_view(bs@),
            out@ == old(out)@ + blocks_pins(bv.take(i as int)),
        decreases bs.len() - i,
    {
        proof {
            assert(bv.take(i + 1).drop_last() =~= bv.take(i as int));
        }
        match &bs[i] {
            ContentBlock::Text { text } => {
                text_pins_exec(text, out);
            },
            ContentBlock::Image { .. } => {},
        }
        i = i + 1;
        assert(out@ =~= old(out)@ + blocks_pins(bv.take(i as int)));
    }
    assert(bv.take(i as int) =~= bv);
}

fn body_exec(bs: &Vec<ContentBlock>) -> (r: Vec<char>)
    ensures
        r@ == body_of(blocks_view(bs@)),
{
    let ghost bv = blocks_view(bs@);
    let mut r: Vec<char> = Vec::new();
    let mut i: usize = 0;
    while i < bs.len()
        invariant
            i <= bs@.len(),
            bv == blocks_view(bs@),
            r@ == body_of(bv.take(i as int)),
        decreases bs.len() - i,
    {
        proof {
            assert(bv.take(i + 1).drop_last() =~= bv.take(i as int));
        }
        match &bs[i] {
            ContentBlock::Text { text } => {
                append_str(&mut r, text.as_str());
            },
            ContentBlock::Image { .. } => {},
        }
        i = i + 1;
        assert(r@ =~= body_of(bv.take(i as int)));
    }
    assert(bv.take(i as int) =~= bv);
    r
}

fn log_entry_exec(m: &UnifiedMessage, out: &mut Vec<char>)
    requires
        summary_cut_ok(m@),
        byte_len(body_of(m@.content)) <= usize::MAX,
    ensures
        final(out)@ == old(out)@ + log_entry(m@),
{
    let body = body_exec(&m.content);
    let blen = chars_byte_len(&body);
    let mut line: Vec<char>;
    if blen > 80 {
        let k = char_index_at_byte(&body, 80);
        let k = match k {
            Some(k) => k,
            None => {
                proof {
                    assert(false);
                }
                0
            },
        };
        let mut head: Vec<char> = Vec::new();
        let mut j: usize = 0;
        while j < k
            invariant
                j <= k,
                k <= body@.len(),
                head@ == body@.take(j as int),
            decreases k - j,
        {
            head.push(body[j]);
            j = j + 1;
            assert(head@ =~= body@.take(j as int));
        }
        line = replace_newlines(&head);
        append_str(&mut line, "...");
    } else {
        line = replace_newlines(&body);
    }
    assert(line@ == summary_line(body_of(m@.content)));
    match &m.tool_calls {
        Some(cs) => {
            let ghost cv = calls_view(cs@);
            let mut j: usize = 0;
            while j < cs.len()
                invariant
                    j <= cs@.len(),
                    cv == calls_view(cs@),
                    out@ == old(out)@ + call_lines(cv.take(j as int)),
                decreases cs.len() - j,
            {
                proof {
                    assert(cv.take(j + 1).drop_last() =~= cv.take(j as int));
                }
                append_str(out, "- Assistant Tool call: ");
                append_str(out, cs[j].name.as_str());
                append_str(out, " with args ");
                append_str(out, cs[j].arguments.as_str());
                append_str(out, "\n");
                j = j + 1;
                assert(out@ =~= old(out)@ + call_lines(cv.take(j as int)));
            }
            assert(cv.take(j as int) =~= cv);
        },
        None => {
            let t = trim_chars(&line);
            append_str(out, "- ");
            match m.role {
                MessageRole::User => append_str(out, "User"),
                MessageRole::Assistant => append_str(out, "Assistant"),
                MessageRole::Tool => append_str(out, "Tool result"),
            }
            append_str(out, ": ");
            append_chars(out, &t);
            append_str(out, "\n");
            assert(out@ =~= old(out)@ + log_entry(m@));
        },
    }
}


// ---------------------------------------------------------------------------
// Budget, fingerprint and the compaction message
// ---------------------------------------------------------------------------

/// Character budget of the folded log: a tenth of the token estimate,
/// clamped to [1200, 12000].
pub open spec fn max_log_chars(total: nat) -> nat {
    let t = if total / 10 > 1200 { total / 10 } else { 1200 };
    if t < 12000 { t } else { 12000 }
}

/// The folded log, cut to its last `max` bytes (behind a marker line) when longer.
pub open spec fn trimmed_log(log: Seq<char>, max: nat) -> Seq<char> {
    if byte_len(log) > max {
        "... (folded historical logs) ...\n"@ + log.skip(
            prefix_chars_for_bytes(log, (byte_len(log) - max) as nat)->0 as int,
        )
    } else {
        log
    }
}

/// The cut of the folded log falls on a character boundary (or is not needed).
pub open spec fn trim_cut_ok(log: Seq<char>, max: nat) -> bool {
    byte_len(log) > max ==> prefix_chars_for_bytes(log, (byte_len(log) - max) as nat) is Some
}

/// SHA-256 digest of a byte string.
pub uninterp spec fn sha256(data: Seq<u8>) -> Seq<u8>;

/// What std's `Debug` prints for a string: the text in double quotes, with
/// quotes, backslashes and non-printable characters escaped (the escaping
/// rests on Unicode tables).
pub uninterp spec fn debug_quoted(s: Seq<char>) -> Seq<char>;

/// What `serde_json`'s `Debug` prints for the JSON value written in `json`
/// (for text that does not parse, what it prints for `Value::Null`, the value
/// such arguments stand for).
pub uninterp spec fn json_value_debug(json: Seq<char>) -> Seq<char>;

/// `format!("{:?}", s)` on a `&str` (std's `Debug` for `str`).
///
/// Trusted: the result depends on the characters alone, named
/// `debug_quoted`; nothing else is claimed of it.
#[verifier::external_body]
fn quoted(s: &str) -> (r: String)
    ensures
        r@ == debug_quoted(s@),
{
    format!("{:?}", s)
}

/// Parses `json` with `serde_json::from_str` and prints the value with
/// `serde_json::Value`'s `Debug`; text that does not parse prints as
/// `Value::Null`.
///
/// Trusted: the result depends on the text alone, named `json_value_debug`;
/// nothing else is claimed of it.
#[verifier::external_body]
fn value_debug(json: &str) -> (r: String)
    ensures
        r@ == json_value_debug(json@),
{
    match serde_json::from_str::<serde_json::Value>(json) {
        Ok(v) => format!("{:?}", v),
        Err(_) => format!("{:?}", serde_json::Value::Null),
    }
}

/// The `Debug` form of an optional string: `Some("..")` or `None`.
pub open spec fn opt_debug(o: Option<Seq<char>>) -> Seq<char> {
    match o {
        Some(t) => "Some("@ + debug_quoted(t) + ")"@,
        None => "None"@,
    }
}

/// The `Debug` form of a role: the variant's name.
pub open spec fn role_debug(r: MessageRole) -> Seq<char> {
    match r {
        MessageRole::User => "User"@,
        MessageRole::Assistant => "Assistant"@,
        MessageRole::Tool => "Tool"@,
    }
}

/// The `Debug` form of an image source.
pub open spec fn image_debug(i: ImageView) -> Seq<char> {
    match i {
        ImageView::DataUrl(u) => "DataUrl { url: "@ + debug_quoted(u) + " }"@,
        ImageView::FilePath(p, m) => "FilePath { path: "@ + debug_quoted(p) + ", mime_type: "@ + opt_debug(m)
            + " }"@,
    }
}

/// The `Debug` form of a content block.
pub open spec fn block_debug(b: BlockView) -> Seq<char> {
    match b {
        BlockView::Text(t) => "Text { text: "@ + debug_quoted(t) + " }"@,
        BlockView::Image(i) => "Image { source: "@ + image_debug(i) + " }"@,
    }
}

/// The `Debug` form of a tool call; its arguments print as the JSON value.
pub open spec fn call_debug(c: CallView) -> Seq<char> {
    "ToolCall { id: "@ + debug_quoted(c.id) + ", name: "@ + debug_quoted(c.name) + ", arguments: "@
        + json_value_debug(c.arguments) + " }"@
}

/// The `Debug` form of a list from the forms of its items.
pub open spec fn list_debug(items: Seq<Seq<char>>) -> Seq<char> {
    "["@ + join(items, ", "@) + "]"@
}

/// The `Debug` form of a message, as the derived `Debug` of the message,
/// its blocks and its calls prints it.
pub open spec fn msg_debug(m: MsgView) -> Seq<char> {
    "UnifiedMessage { role: "@ + role_debug(m.role) + ", content: "@ + list_debug(
        m.content.map_values(|b: BlockView| block_debug(b)),
    ) + ", tool_calls: "@ + (match m.tool_calls {
        Some(cs) => "Some("@ + list_debug(cs.map_values(|c: CallView| call_debug(c))) + ")"@,
        None => "None"@,
    }) + ", tool_call_id: "@ + opt_debug(m.tool_call_id) + ", reasoning_content: "@ + opt_debug(
        m.reasoning_content,
    ) + " }"@
}

fn opt_debug_text(o: &Option<String>) -> (r: String)
    ensures
        r@ == opt_debug(opt_view(*o)),
{
    match o {
        Some(t) => {
            let q = quoted(t.as_str());
            let mut out: Vec<char> = Vec::new();
            append_str(&mut out, "Some(");
            append_str(&mut out, q.as_str());
            append_str(&mut out, ")");
            string_from_chars(&out)
        },
        None => "None".to_owned(),
    }
}

fn block_debug_text(b: &ContentBlock) -> (r: String)
    ensures
        r@ == block_debug(b@),
{
    let mut out: Vec<char> = Vec::new();
    match b {
        ContentBlock::Text { text } => {
            append_str(&mut out, "Text { text: ");
            let q = quoted(text.as_str());
            append_str(&mut out, q.as_str());
            append_str(&mut out, " }");
        },
        ContentBlock::Image { source } => {
            append_str(&mut out, "Image { source: ");
            match source {
                ImageSource::DataUrl { url } => {
                    append_str(&mut out, "DataUrl { url: ");
                    let q = quoted(url.as_str());
                    append_str(&mut out, q.as_str());
                    append_str(&mut out, " }");
                },
                ImageSource::FilePath { path, mime_type } => {
                    append_str(&mut out, "FilePath { path: ");
                    let q = quoted(path.as_str());
                    append_str(&mut out, q.as_str());
                    append_str(&mut out, ", mime_type: ");
                    let m = opt_debug_text(mime_type);
                    append_str(&mut out, m.as_str());
                    append_str(&mut out, " }");
                },
            }
            append_str(&mut out, " }");
        },
    }
    string_from_chars(&out)
}

fn call_debug_text(c: &ToolCall) -> (r: String)
    ensures
        r@ == call_debug(c@),
{
    let mut out: Vec<char> = Vec::new();
    append_str(&mut out, "ToolCall { id: ");
    let q = quoted(c.id.as_str());
    append_str(&mut out, q.as_str());
    append_str(&mut out, ", name: ");
    let q = quoted(c.name.as_str());
    append_str(&mut out, q.as_str());
    append_str(&mut out, ", arguments: ");
    let v = value_debug(c.arguments.as_str());
    append_str(&mut out, v.as_str());
    append_str(&mut out, " }");
    string_from_chars(&out)
}

fn blocks_debug_text(bs: &Vec<ContentBlock>) -> (r: String)
    ensures
        r@ == list_debug(blocks_view(bs@).map_values(|b: BlockView| block_debug(b))),
{
    let ghost target = blocks_view(bs@).map_values(|b: BlockView| block_debug(b));
    let mut parts: Vec<String> = Vec::new();
    let mut i: usize = 0;
    while i < bs.len()
        invariant
            i <= bs@.len(),
            target == blocks_view(bs@).map_values(|b: BlockView| block_debug(b)),
            views(parts@) == target.take(i as int),
        decreases bs.len() - i,
    {
        let t = block_debug_text(&bs[i]);
        assert(blocks_view(bs@)[i as int] == bs@[i as int]@);
        assert(target[i as int] == t@);
        let ghost before = parts@;
        parts.push(t);
        assert(views(parts@) =~= views(before).push(target[i as int]));
        assert(target.take(i + 1) =~= target.take(i as int).push(target[i as int]));
        i = i + 1;
    }
    assert(target.take(i as int) =~= target);
    let inner = join_strings(&parts, ", ");
    let mut out: Vec<char> = Vec::new();
    append_str(&mut out, "[");
    append_str(&mut out, inner.as_str());
    append_str(&mut out, "]");
    string_from_chars(&out)
}

fn calls_debug_text(cs: &Vec<ToolCall>) -> (r: String)
    ensures
        r@ == list_debug(calls_view(cs@).map_values(|c: CallView| call_debug(c))),
{
    let ghost target = calls_view(cs@).map_values(|c: CallView| call_debug(c));
    let mut parts: Vec<String> = Vec::new();
    let mut i: usize = 0;
    while i < cs.len()
        invariant
            i <= cs@.len(),
            target == calls_view(cs@).map_values(|c: CallView| call_debug(c)),
            views(parts@) == target.take(i as int),
        decreases cs.len() - i,
    {
        let t = call_debug_text(&cs[i]);
        assert(calls_view(cs@)[i as int] == cs@[i as int]@);
        assert(target[i as int] == t@);
        let ghost before = parts@;
        parts.push(t);
        assert(views(parts@) =~= views(before).push(target[i as int]));
        assert(target.take(i + 1) =~= target.take(i as int).push(target[i as int]));
        i = i + 1;
    }
    assert(target.take(i as int) =~= target);
    let inner = join_strings(&parts, ", ");
    let mut out: Vec<char> = Vec::new();
    append_str(&mut out, "[");
    append_str(&mut out, inner.as_str());
    append_str(&mut out, "]");
    string_from_chars(&out)
}

/// The fingerprint text of a message: its `Debug` form.
pub fn message_debug_text(m: &UnifiedMessage) -> (r: String)
    ensures
        r@ == msg_debug(m@),
{
    let mut out: Vec<char> = Vec::new();
    append_str(&mut out, "UnifiedMessage { role: ");
    match m.role {
        MessageRole::User => append_str(&mut out, "User"),
        MessageRole::Assistant => append_str(&mut out, "Assistant"),
        MessageRole::Tool => append_str(&mut out, "Tool"),
    }
    append_str(&mut out, ", content: ");
    let c = blocks_debug_text(&m.content);
    append_str(&mut out, c.as_str());
    append_str(&mut out, ", tool_calls: ");
    match &m.tool_calls {
        Some(cs) => {
            append_str(&mut out, "Some(");
            let t = calls_debug_text(cs);
            append_str(&mut out, t.as_str());
            append_str(&mut out, ")");
        },
        None => append_str(&mut out, "None"),
    }
    append_str(&mut out, ", tool_call_id: ");
    let t = opt_debug_text(&m.tool_call_id);
    append_str(&mut out, t.as_str());
    append_str(&mut out, ", reasoning_content: ");
    let t = opt_debug_text(&m.reasoning_content);
    append_str(&mut out, t.as_str());
    append_str(&mut out, " }");
    string_from_chars(&out)
}

/// `sha2::Sha256::digest`.
///
/// Trusted: the result is the SHA-256 digest of the input, named `sha256`,
/// and is 32 bytes long, as the crate documents.
#[verifier::external_body]
fn sha256_digest(data: &[u8]) -> (r: Vec<u8>)
    ensures
        r@ == sha256(data@),
        r@.len() == 32,
{
    sha2::Sha256::digest(data).to_vec()
}

/// The bytes hashed for the fingerprint: the UTF-8 `Debug` texts of the
/// folded messages, one after another (feeding a hasher piece by piece
/// hashes the concatenation).
pub open spec fn debug_bytes(fold: Seq<MsgView>) -> Seq<u8>
    decreases fold.len(),
{
    if fold.len() == 0 {
        Seq::empty()
    } else {
        debug_bytes(fold.drop_last()) + encode_utf8(msg_debug(fold.last()))
    }
}

/// First 16 hex digits of the SHA-256 fingerprint of the folded messages.
pub open spec fn digest_prefix(fold: Seq<MsgView>) -> Seq<char> {
    hex_lower(sha256(debug_bytes(fold))).take(16)
}

/// Text of the message that replaces the folded history.
pub open spec fn compaction_body(fold: Seq<MsgView>, total: nat) -> Seq<char> {
    let c = constraints_of(fold);
    let p = pins_of(fold);
    "[上下文折叠摘要 — 历史消息被压缩]\n"@ + (if c.len() > 0 {
        "【系统级指令约束】\n"@ + c + "\n"@
    } else {
        Seq::empty()
    }) + (if p.len() > 0 {
        "【活跃技能指令特征】\n"@ + p + "\n"@
    } else {
        Seq::empty()
    }) + "【折叠历史事件线摘要】\n"@ + trimmed_log(folded_log(fold), max_log_chars(total))
        + "\nCompaction digest marker: [mcp_digest_"@ + digest_prefix(fold) + "]\n"@
}

/// The compaction message: a user message with the summary as its only block.
pub open spec fn compaction_message(fold: Seq<MsgView>, total: nat) -> MsgView {
    MsgView {
        role: MessageRole::User,
        content: seq![BlockView::Text(compaction_body(fold, total))],
        tool_calls: None,
        tool_call_id: None,
        reasoning_content: None,
    }
}

/// The model name marks a DeepSeek model (case-insensitively).
pub open spec fn is_deepseek(model: Seq<char>) -> bool {
    contains_seq(lowercase(model), "deepseek"@)
}

/// Token count below which nothing is compacted.
pub open spec fn soft_threshold(model: Seq<char>) -> nat {
    if is_deepseek(model) { 980_000 } else { 16_000 }
}

/// Token count from which only the last message is kept.
pub open spec fn hard_threshold(model: Seq<char>) -> nat {
    if is_deepseek(model) { 990_000 } else { 24_000 }
}

/// Number of recent history messages kept verbatim: 1 at or above the hard
/// threshold, 2 from 60% of the way between the thresholds, 4 otherwise.
pub open spec fn keep_recent(total: nat, model: Seq<char>) -> nat {
    let soft = soft_threshold(model);
    let hard = hard_threshold(model);
    if total >= hard {
        1
    } else if total >= soft + (hard - soft) * 3 / 5 {
        2
    } else {
        4
    }
}

/// Compaction applies: the estimate reaches the soft threshold and there are
/// at least 8 messages.
pub open spec fn compaction_triggered(ms: Seq<MsgView>, model: Seq<char>) -> bool {
    estimate(ms) >= soft_threshold(model) && ms.len() >= 8
}

/// The history messages that get folded (empty when nothing is folded).
pub open spec fn fold_part(ms: Seq<MsgView>, model: Seq<char>) -> Seq<MsgView> {
    let h = history_part(ms);
    let keep = keep_recent(estimate(ms), model);
    if compaction_triggered(ms, model) && h.len() > keep {
        h.take(h.len() - keep)
    } else {
        Seq::empty()
    }
}

/// What `compact` returns.
pub open spec fn compact_result(ms: Seq<MsgView>, model: Seq<char>) -> Seq<MsgView> {
    let total = estimate(ms);
    if !compaction_triggered(ms, model) {
        ms
    } else {
        let keep = keep_recent(total, model);
        let fr = frozen_part(ms);
        let h = history_part(ms);
        if h.len() <= keep {
            fr + h
        } else {
            fr.push(compaction_message(h.take(h.len() - keep), total)) + h.skip(h.len() - keep)
        }
    }
}

/// `compact` cuts strings only at character boundaries: every folded body
/// longer than 80 bytes has a boundary at byte 80, and the folded log has one
/// where its budget starts. (On other inputs the byte slicing panics.)
pub open spec fn compact_cuts_ok(ms: Seq<MsgView>, model: Seq<char>) -> bool {
    let fold = fold_part(ms, model);
    &&& forall|i: int| 0 <= i < fold.len() ==> summary_cut_ok(#[trigger] fold[i])
    &&& (fold.len() > 0 ==> trim_cut_ok(folded_log(fold), max_log_chars(estimate(ms))))
}

/// Sizes that `compact` computes fit in a `usize`.
pub open spec fn compact_fits(ms: Seq<MsgView>, model: Seq<char>) -> bool {
    let fold = fold_part(ms, model);
    &&& total_chars(ms) <= usize::MAX
    &&& estimate(ms) <= usize::MAX
    &&& forall|i: int| 0 <= i < fold.len() ==> byte_len(body_of(#[trigger] fold[i].content)) <= usize::MAX
    &&& byte_len(folded_log(fold)) <= usize::MAX
}

fn trim_log_exec(log: &Vec<char>, max: usize) -> (r: Vec<char>)
    requires
        trim_cut_ok(log@, max as nat),
        byte_len(log@) <= usize::MAX,
    ensures
        r@ == trimmed_log(log@, max as nat),
{
    let n = chars_byte_len(log);
    if n > max {
        let k = char_index_at_byte(log, n - max);
        let k = match k {
            Some(k) => k,
            None => {
                proof {
                    assert(false);
                }
                0
            },
        };
        let mut r = str_chars("... (folded historical logs) ...\n");
        let mut j: usize = k;
        let ghost r0 = r@;
        while j < log.len()
            invariant
                k <= j <= log@.len(),
                r@ == r0 + log@.subrange(k as int, j as int),
            decreases log.len() - j,
        {
            r.push(log[j]);
            j = j + 1;
            assert(r@ =~= r0 + log@.subrange(k as int, j as int));
        }
        assert(log@.subrange(k as int, log@.len() as int) =~= log@.skip(k as int));
        r
    } else {
        let mut r: Vec<char> = Vec::new();
        append_chars(&mut r, log);
        assert(r@ =~= log@);
        r
    }
}

fn digest_prefix_exec(fold: &Vec<UnifiedMessage>) -> (r: Vec<char>)
    ensures
        r@ == digest_prefix(msgs_view(fold@)),
{
    let ghost fv = msgs_view(fold@);
    let mut bytes: Vec<u8> = Vec::new();
    let mut i: usize = 0;
    while i < fold.len()
        invariant
            i <= fold@.len(),
            fv == msgs_view(fold@),
            bytes@ == debug_bytes(fv.take(i as int)),
        decreases fold.len() - i,
    {
        proof {
            assert(fv.take(i + 1).drop_last() =~= fv.take(i as int));
        }
        let t = message_debug_text(&fold[i]);
        let tb = t.as_str().as_bytes();
        let ghost b0 = bytes@;
        let mut j: usize = 0;
        while j < tb.len()
            invariant
                j <= tb@.len(),
                bytes@ == b0 + tb@.take(j as int),
            decreases tb.len() - j,
        {
            bytes.push(tb[j]);
            j = j + 1;
            assert(bytes@ =~= b0 + tb@.take(j as int));
        }
        assert(tb@.take(j as int) =~= tb@);
        i = i + 1;
    }
    assert(fv.take(i as int) =~= fv);
    let d = sha256_digest(bytes.as_slice());
    let hex = hex_chars(&d);
    let mut r: Vec<char> = Vec::new();
    let mut k: usize = 0;
    while k < 16
        invariant
            k <= 16,
            hex@.len() == 64,
            r@ == hex@.take(k as int),
        decreases 16 - k,
    {
        r.push(hex[k]);
        k = k + 1;
        assert(r@ =~= hex@.take(k as int));
    }
    r
}


fn collect_fold_parts(fold: &Vec<UnifiedMessage>) -> (r: (Vec<char>, Vec<char>, Vec<char>))
    requires
        forall|i: int|
            0 <= i < fold@.len() ==> summary_cut_ok(#[trigger] msgs_view(fold@)[i]),
        forall|i: int|
            0 <= i < fold@.len() ==> byte_len(body_of(#[trigger] msgs_view(fold@)[i].content))
                <= usize::MAX,
    ensures
        r.0@ == constraints_of(msgs_view(fold@)),
        r.1@ == pins_of(msgs_view(fold@)),
        r.2@ == folded_log(msgs_view(fold@)),
{
    let ghost fv = msgs_view(fold@);
    let mut pinned: Vec<char> = Vec::new();
    let mut pins: Vec<char> = Vec::new();
    let mut log: Vec<char> = Vec::new();
    let mut i: usize = 0;
    while i < fold.len()
        invariant
            i <= fold@.len(),
            fv == msgs_view(fold@),
            forall|k: int| 0 <= k < fold@.len() ==> summary_cut_ok(#[trigger] fv[k]),
            forall|k: int| 0 <= k < fold@.len() ==> byte_len(body_of(#[trigger] fv[k].content)) <= usize::MAX,
            pinned@ == constraints_of(fv.take(i as int)),
            pins@ == pins_of(fv.take(i as int)),
            log@ == folded_log(fv.take(i as int)),
        decreases fold.len() - i,
    {
        proof {
            assert(fv.take(i + 1).drop_last() =~= fv.take(i as int));
            assert(fv[i as int] == fold@[i as int]@);
            assert(summary_cut_ok(fv[i as int]));
            assert(byte_len(body_of(fv[i as int].content)) <= usize::MAX);
        }
        let m = &fold[i];
        blocks_constraints_exec(&m.content, &mut pinned);
        blocks_pins_exec(&m.content, &mut pins);
        log_entry_exec(m, &mut log);
        i = i + 1;
    }
    assert(fv.take(i as int) =~= fv);
    (pinned, pins, log)
}

fn assemble_body(pinned: &Vec<char>, pins: &Vec<char>, trimmed: &Vec<char>, digest: &Vec<char>) -> (out: Vec<char>)
    ensures
        out@ == "[上下文折叠摘要 — 历史消息被压缩]\n"@ + (if pinned@.len() > 0 {
            "【系统级指令约束】\n"@ + pinned@ + "\n"@
        } else {
            Seq::empty()
        }) + (if pins@.len() > 0 {
            "【活跃技能指令特征】\n"@ + pins@ + "\n"@
        } else {
            Seq::empty()
        }) + "【折叠历史事件线摘要】\n"@ + trimmed@ + "\nCompaction digest marker: [mcp_digest_"@
            + digest@ + "]\n"@,
{
    let mut out = str_chars("[上下文折叠摘要 — 历史消息被压缩]\n");
    let ghost s0 = out@;
    if pinned.len() > 0 {
        append_str(&mut out, "【系统级指令约束】\n");
        append_chars(&mut out, pinned);
        append_str(&mut out, "\n");
    }
    let ghost s1 = out@;
    assert(s1 =~= s0 + (if pinned@.len() > 0 {
        "【系统级指令约束】\n"@ + pinned@ + "\n"@
    } else {
        Seq::empty()
    }));
    if pins.len() > 0 {
        append_str(&mut out, "【活跃技能指令特征】\n");
        append_chars(&mut out, pins);
        append_str(&mut out, "\n");
    }
    let ghost s2 = out@;
    assert(s2 =~= s1 + (if pins@.len() > 0 {
        "【活跃技能指令特征】\n"@ + pins@ + "\n"@
    } else {
        Seq::empty()
    }));
    append_str(&mut out, "【折叠历史事件线摘要】\n");
    append_chars(&mut out, trimmed);
    append_str(&mut out, "\nCompaction digest marker: [mcp_digest_");
    append_chars(&mut out, digest);
    append_str(&mut out, "]\n");
    out
}

fn build_summary(fold: &Vec<UnifiedMessage>, total: usize) -> (body: String)
    requires
        forall|i: int|
            0 <= i < fold@.len() ==> summary_cut_ok(#[trigger] msgs_view(fold@)[i]),
        forall|i: int|
            0 <= i < fold@.len() ==> byte_len(body_of(#[trigger] msgs_view(fold@)[i].content))
                <= usize::MAX,
        byte_len(folded_log(msgs_view(fold@))) <= usize::MAX,
        fold@.len() > 0,
        trim_cut_ok(folded_log(msgs_view(fold@)), max_log_chars(total as nat)),
    ensures
        body@ == compaction_body(msgs_view(fold@), total as nat),
{
    let (pinned, pins, log) = collect_fold_parts(fold);
    let tenth = total / 10;
    let lo = if tenth > 1200 { tenth } else { 1200 };
    let max_chars = if lo < 12000 { lo } else { 12000 };
    let trimmed = trim_log_exec(&log, max_chars);
    let digest = digest_prefix_exec(fold);
    let out = assemble_body(&pinned, &pins, &trimmed, &digest);
    string_from_chars(&out)
}

impl ContextCompactor {
    /// Folds old history when the conversation is large.
    ///
    /// Nothing changes below the model's soft threshold (16 000 estimated
    /// tokens, 980 000 for DeepSeek models) or with fewer than 8 messages.
    /// Otherwise frozen messages (system instructions, working directory,
    /// skills) stay first, in order; all but the last 1, 2 or 4 history
    /// messages are replaced by one summary message listing the hard
    /// constraints, the skill pins, a one-line log per message and a SHA-256
    /// fingerprint; the kept history follows.
    pub fn compact(messages: Vec<UnifiedMessage>, model: &str) -> (r: Vec<UnifiedMessage>)
        requires
            compact_fits(msgs_view(messages@), model@),
            compact_cuts_ok(msgs_view(messages@), model@),
        ensures
            msgs_view(r@) == compact_result(msgs_view(messages@), model@),
    {
        match Self::try_compact(messages, model) {
            Some(r) => r,
            None => {
                assert(false);
                Vec::new()
            },
        }
    }

    /// `compact` where it can run: `None` when a size it computes does not
    /// fit a `usize`, or when a cut it makes (byte 80 of a folded message's
    /// text, or the start of the kept end of the folded log) falls inside a
    /// character, where the byte slice fails.
    pub fn try_compact(messages: Vec<UnifiedMessage>, model: &str) -> (r: Option<Vec<UnifiedMessage>>)
        ensures
            (compact_fits(msgs_view(messages@), model@) && compact_cuts_ok(msgs_view(messages@), model@))
                <==> r is Some,
            r matches Some(v) ==> msgs_view(v@) == compact_result(msgs_view(messages@), model@),
    {
        let ghost mv = msgs_view(messages@);
        let chars = match checked_total_chars(&messages) {
            Some(c) => c,
            None => {
                return None;
            },
        };
        let q = chars / 7 * 2 + (chars % 7) * 2 / 7;
        proof {
            lemma_div7(chars as nat);
        }
        let per = match messages.len().checked_mul(20) {
            Some(x) => x,
            None => {
                return None;
            },
        };
        let total = match q.checked_add(per) {
            Some(x) => x,
            None => {
                return None;
            },
        };
        assert(total == estimate(mv));
        let model_lower = to_lowercase(model);
        let deepseek = str_contains(model_lower.as_str(), "deepseek");
        let soft: usize = if deepseek { 980_000 } else { 16_000 };
        let hard: usize = if deepseek { 990_000 } else { 24_000 };
        if total < soft || messages.len() < 8 {
            assert(fold_part(mv, model@) =~= Seq::<MsgView>::empty());
            return Some(messages);
        }
        let keep: usize = if total >= hard {
            1
        } else if total >= soft + (hard - soft) * 3 / 5 {
            2
        } else {
            4
        };
        assert(keep == keep_recent(total as nat, model@));
        let (mut frozen, history) = partition_frozen(messages);
        if history.len() <= keep {
            let mut history = history;
            let ghost f0 = frozen@;
            let ghost h0 = history@;
            frozen.append(&mut history);
            assert(fold_part(mv, model@) =~= Seq::<MsgView>::empty());
            assert(msgs_view(frozen@) =~= msgs_view(f0) + msgs_view(h0));
            return Some(frozen);
        }
        let split = history.len() - keep;
        let mut fold = history;
        let mut recent = fold.split_off(split);
        proof {
            assert(msgs_view(fold@) =~= history_part(mv).take(split as int));
            assert(msgs_view(recent@) =~= history_part(mv).skip(split as int));
            assert(fold_part(mv, model@) == msgs_view(fold@));
        }
        let ghost fv = msgs_view(fold@);
        let mut i: usize = 0;
        while i < fold.len()
            invariant
                i <= fold@.len(),
                fv == msgs_view(fold@),
                fv == fold_part(mv, model@),
                mv == msgs_view(messages@),
                forall|k: int| 0 <= k < i ==> summary_cut_ok(#[trigger] fv[k]),
                forall|k: int| 0 <= k < i ==> byte_len(body_of(#[trigger] fv[k].content)) <= usize::MAX,
            decreases fold.len() - i,
        {
            assert(fv[i as int] == fold@[i as int]@);
            let body = body_exec(&fold[i].content);
            assert(body@ == body_of(fv[i as int].content));
            if byte_len_exceeds(&body, usize::MAX) {
                assert(!compact_fits(mv, model@)) by {
                    assert(byte_len(body_of(fold_part(mv, model@)[i as int].content)) > usize::MAX);
                }
                return None;
            }
            if byte_len_exceeds(&body, 80) {
                match char_index_at_byte(&body, 80) {
                    Some(_) => {},
                    None => {
                        assert(!compact_cuts_ok(mv, model@)) by {
                            assert(!summary_cut_ok(fold_part(mv, model@)[i as int]));
                        }
                        return None;
                    },
                }
            }
            i = i + 1;
        }
        let (_pinned, _pins, log) = collect_fold_parts(&fold);
        if byte_len_exceeds(&log, usize::MAX) {
            return None;
        }
        let n = chars_byte_len(&log);
        let tenth = total / 10;
        let lo = if tenth > 1200 { tenth } else { 1200 };
        let max_chars = if lo < 12000 { lo } else { 12000 };
        assert(max_chars == max_log_chars(total as nat));
        if n > max_chars {
            match char_index_at_byte(&log, n - max_chars) {
                Some(_) => {},
                None => {
                    return None;
                },
            }
        }
        let body = build_summary(&fold, total);
        let summary = UnifiedMessage::text(MessageRole::User, body);
        let ghost f0 = frozen@;
        frozen.push(summary);
        let ghost r0 = recent@;
        frozen.append(&mut recent);
        assert(msgs_view(frozen@) =~= msgs_view(f0).push(summary@) + msgs_view(r0));
        Some(frozen)
    }
}


// ---------------------------------------------------------------------------
// Laws
// ---------------------------------------------------------------------------

proof fn lemma_occurs_in_concat(a: Seq<char>, b: Seq<char>, n: Seq<char>, k: int)
    ensures
        crate::text::occurs_at(a, n, k) ==> crate::text::occurs_at(a + b, n, k),
        crate::text::occurs_at(b, n, k) ==> crate::text::occurs_at(a + b, n, k + a.len()),
{
    if crate::text::occurs_at(a, n, k) {
        assert((a + b).subrange(k, k + n.len()) =~= a.subrange(k, k + n.len()));
    }
    if crate::text::occurs_at(b, n, k) {
        assert((a + b).subrange(k + a.len(), k + a.len() + n.len()) =~= b.subrange(k, k + n.len()));
    }
}

proof fn lemma_block_constraint_listed(bs: Seq<BlockView>, j: int, t: Seq<char>)
    requires
        0 <= j < bs.len(),
        bs[j] == BlockView::Text(t),
        is_constraint_text(t),
    ensures
        contains_seq(blocks_constraints(bs), t.push('\n')),
    decreases bs.len(),
{
    let n = t.push('\n');
    let prev = blocks_constraints(bs.drop_last());
    let tail = match bs.last() {
        BlockView::Text(u) => if is_constraint_text(u) {
            u.push('\n')
        } else {
            Seq::empty()
        },
        BlockView::Image(_) => Seq::empty(),
    };
    assert(blocks_constraints(bs) == prev + tail);
    if j == bs.len() - 1 {
        assert(tail.subrange(0, n.len() as int) =~= n);
        assert(crate::text::occurs_at(tail, n, 0));
        lemma_occurs_in_concat(prev, tail, n, 0);
        assert(crate::text::occurs_at(prev + tail, n, prev.len() as int));
    } else {
        assert(bs.drop_last()[j] == bs[j]);
        lemma_block_constraint_listed(bs.drop_last(), j, t);
        let k = choose|k: int| crate::text::occurs_at(prev, n, k);
        lemma_occurs_in_concat(prev, tail, n, k);
    }
}

proof fn lemma_message_constraint_listed(fold: Seq<MsgView>, i: int, n: Seq<char>)
    requires
        0 <= i < fold.len(),
        contains_seq(blocks_constraints(fold[i].content), n),
    ensures
        contains_seq(constraints_of(fold), n),
    decreases fold.len(),
{
    let prev = constraints_of(fold.drop_last());
    let tail = blocks_constraints(fold.last().content);
    assert(constraints_of(fold) == prev + tail);
    if i == fold.len() - 1 {
        let k = choose|k: int| crate::text::occurs_at(tail, n, k);
        lemma_occurs_in_concat(prev, tail, n, k);
    } else {
        assert(fold.drop_last()[i] == fold[i]);
        lemma_message_constraint_listed(fold.drop_last(), i, n);
        let k = choose|k: int| crate::text::occurs_at(prev, n, k);
        lemma_occurs_in_concat(prev, tail, n, k);
    }
}

/// Each folded text block that states a hard constraint (it contains
/// "本地优先", "必须" or "禁止") is kept: the summary opens with the
/// constraint section, and the block's text, followed by a line feed,
/// appears in the summary.
pub proof fn law_folded_constraints_kept(fold: Seq<MsgView>, total: nat, i: int, j: int, t: Seq<char>)
    requires
        0 <= i < fold.len(),
        0 <= j < fold[i].content.len(),
        fold[i].content[j] == BlockView::Text(t),
        contains_seq(t, "本地优先"@) || contains_seq(t, "必须"@) || contains_seq(t, "禁止"@),
    ensures
        starts_with_seq(compaction_body(fold, total), "[上下文折叠摘要 — 历史消息被压缩]\n"@ + "【系统级指令约束】\n"@),
        contains_seq(compaction_body(fold, total), t.push('\n')),
{
    let n = t.push('\n');
    lemma_block_constraint_listed(fold[i].content, j, t);
    lemma_message_constraint_listed(fold, i, n);
    let c = constraints_of(fold);
    let k = choose|k: int| crate::text::occurs_at(c, n, k);
    assert(c.len() > 0);
    let title = "[上下文折叠摘要 — 历史消息被压缩]\n"@;
    let header = "【系统级指令约束】\n"@;
    let section = header + c + "\n"@;
    let body = compaction_body(fold, total);
    let rest = body.skip((title.len() + section.len()) as int);
    assert(body =~= title + section + rest);
    assert(body.subrange(0, (title + header).len() as int) =~= title + header);
    lemma_occurs_in_concat(header, c, n, k);
    lemma_occurs_in_concat(header + c, "\n"@, n, k + header.len());
    lemma_occurs_in_concat(title, section, n, k + header.len());
    lemma_occurs_in_concat(title + section, rest, n, k + header.len() + title.len());
}

/// When `compact` folds history, the message that replaces it is a user
/// message with one text block that keeps every hard constraint stated in
/// the folded messages, under the constraint section.
pub proof fn law_compact_keeps_constraints(ms: Seq<MsgView>, model: Seq<char>, i: int, j: int, t: Seq<char>)
    requires
        0 <= i < fold_part(ms, model).len(),
        0 <= j < fold_part(ms, model)[i].content.len(),
        fold_part(ms, model)[i].content[j] == BlockView::Text(t),
        contains_seq(t, "本地优先"@) || contains_seq(t, "必须"@) || contains_seq(t, "禁止"@),
    ensures
        ({
            let s = compact_result(ms, model)[frozen_part(ms).len() as int];
            &&& s.role == MessageRole::User
            &&& s.content.len() == 1
            &&& s.content[0] matches BlockView::Text(body) && starts_with_seq(
                body,
                "[上下文折叠摘要 — 历史消息被压缩]\n"@ + "【系统级指令约束】\n"@,
            ) && contains_seq(body, t.push('\n'))
        }),
{
    let fold = fold_part(ms, model);
    let total = estimate(ms);
    law_folded_constraints_kept(fold, total, i, j, t);
    let fr = frozen_part(ms);
    let h = history_part(ms);
    let keep = keep_recent(total, model);
    assert(fold == h.take(h.len() - keep));
    let r = fr.push(compaction_message(fold, total)) + h.skip(h.len() - keep);
    assert(compact_result(ms, model) == r);
    assert(r[fr.len() as int] == compaction_message(fold, total));
}

/// Every message is either frozen or history.
pub proof fn lemma_partition_len(ms: Seq<MsgView>)
    ensures
        frozen_part(ms).len() + history_part(ms).len() == ms.len(),
    decreases ms.len(),
{
    if ms.len() > 0 {
        lemma_partition_len(ms.drop_last());
    }
}

/// Below the soft threshold, or with fewer than 8 messages, compaction
/// returns the messages unchanged.
pub proof fn law_compact_identity_when_small(ms: Seq<MsgView>, model: Seq<char>)
    requires
        estimate(ms) < soft_threshold(model) || ms.len() < 8,
    ensures
        compact_result(ms, model) == ms,
{
}

/// Compaction never lengthens the conversation.
pub proof fn law_compact_never_grows(ms: Seq<MsgView>, model: Seq<char>)
    ensures
        compact_result(ms, model).len() <= ms.len(),
{
    lemma_partition_len(ms);
}

/// When compaction applies, the frozen messages come first, unchanged and in
/// their original order.
pub proof fn law_compact_keeps_frozen_prefix(ms: Seq<MsgView>, model: Seq<char>)
    requires
        compaction_triggered(ms, model),
    ensures
        compact_result(ms, model).take(frozen_part(ms).len() as int) == frozen_part(ms),
{
    let fr = frozen_part(ms);
    let h = history_part(ms);
    let keep = keep_recent(estimate(ms), model);
    if h.len() <= keep {
        assert((fr + h).take(fr.len() as int) =~= fr);
    } else {
        let c = compaction_message(h.take(h.len() - keep), estimate(ms));
        assert((fr.push(c) + h.skip(h.len() - keep)).take(fr.len() as int) =~= fr);
    }
}

/// When history is folded, the conversation ends with the most recent
/// history messages, unchanged: the last one at or above the hard threshold,
/// the last two or four below it.
pub proof fn law_compact_keeps_recent_suffix(ms: Seq<MsgView>, model: Seq<char>)
    requires
        compaction_triggered(ms, model),
        history_part(ms).len() > keep_recent(estimate(ms), model),
    ensures
        ({
            let r = compact_result(ms, model);
            let h = history_part(ms);
            let keep = keep_recent(estimate(ms), model);
            &&& r.len() == frozen_part(ms).len() + 1 + keep
            &&& r.skip(r.len() - keep) == h.skip(h.len() - keep)
            &&& r[frozen_part(ms).len() as int] == compaction_message(
                h.take(h.len() - keep),
                estimate(ms),
            )
        }),
{
    let fr = frozen_part(ms);
    let h = history_part(ms);
    let keep = keep_recent(estimate(ms), model);
    let c = compaction_message(h.take(h.len() - keep), estimate(ms));
    let r = fr.push(c) + h.skip(h.len() - keep);
    assert(r.skip(r.len() - keep) =~= h.skip(h.len() - keep));
}

/// Appending a message raises the token estimate by at least 20.
pub proof fn law_estimate_grows_with_messages(ms: Seq<MsgView>, m: MsgView)
    ensures
        estimate(ms.push(m)) >= estimate(ms) + 20,
{
    assert(ms.push(m).drop_last() =~= ms);
    let t = total_chars(ms);
    let u = total_chars(ms.push(m));
    assert(u >= t);
    assert(u * 2 / 7 >= t * 2 / 7) by (nonlinear_arith)
        requires
            u >= t,
    ;
}

} // verus!
