//! Remembered task solutions, and the integer part of their text vectors:
//! the bucket that each word of a text counts in.
use vstd::prelude::*;
use vstd::utf8::encode_utf8;
use vstd::string::StringSliceAdditionalSpecFns;
use crate::text::{char_is_ws, is_ws, str_chars, string_from_chars};

verus! {

/// A remembered task and how it was solved.
#[derive(Debug, Clone)]
pub struct Memory {
    pub id: Option<i64>,
    pub task: String,
    pub solution: String,
    /// JSON array of the tool names used.
    pub tools_used: String,
    pub success: bool,
    /// Seconds since the Unix epoch.
    pub timestamp: i64,
    pub failure_reason: Option<String>,
    pub fix_applied: Option<String>,
}

/// The number of buckets of a text vector.
pub const VECTOR_DIMENSION: usize = 128;

/// The whitespace-separated words of `s`, in order (`split_whitespace`): a
/// character that is not whitespace extends the word of the character
/// before it, or starts a new word after whitespace or at the start.
pub open spec fn ws_words(s: Seq<char>) -> Seq<Seq<char>>
    decreases s.len(),
{
    if s.len() == 0 {
        Seq::empty()
    } else {
        let p = ws_words(s.drop_last());
        if is_ws(s.last()) {
            p
        } else if s.len() >= 2 && !is_ws(s[s.len() - 2]) {
            p.update(p.len() - 1, p.last().push(s.last()))
        } else {
            p.push(seq![s.last()])
        }
    }
}

/// The hash of a word's bytes: from zero, each byte `b` turns `h` into
/// `h * 31 + b`, wrapping at 32 bits.
pub open spec fn word_hash(bytes: Seq<u8>) -> u32
    decreases bytes.len(),
{
    if bytes.len() == 0 {
        0u32
    } else {
        word_hash(bytes.drop_last()).wrapping_mul(31).wrapping_add(bytes.last() as u32)
    }
}

/// The bucket a word counts in: the hash of its UTF-8 bytes modulo the
/// dimension.
pub open spec fn word_bucket(w: Seq<char>) -> nat {
    (word_hash(encode_utf8(w)) as nat) % (VECTOR_DIMENSION as nat)
}

proof fn lemma_ws_words_last(s: Seq<char>)
    requires
        s.len() > 0,
        !is_ws(s.last()),
    ensures
        ws_words(s).len() >= 1,
        ws_words(s).last().len() >= 1,
    decreases s.len(),
{
    if s.len() >= 2 && !is_ws(s[s.len() - 2]) {
        assert(s.drop_last().last() == s[s.len() - 2]);
        lemma_ws_words_last(s.drop_last());
    }
}

fn bytes_hash(b: &[u8]) -> (h: u32)
    ensures
        h == word_hash(b@),
{
    let mut h: u32 = 0;
    let mut i: usize = 0;
    while i < b.len()
        invariant
            i <= b@.len(),
            h == word_hash(b@.take(i as int)),
        decreases b.len() - i,
    {
        assert(b@.take(i + 1).drop_last() =~= b@.take(i as int));
        h = h.wrapping_mul(31).wrapping_add(b[i] as u32);
        i = i + 1;
    }
    assert(b@.take(i as int) =~= b@);
    h
}

/// The bucket of each whitespace-separated word of `text`, in order; a text
/// vector counts one in each.
pub fn word_buckets(text: &str) -> (r: Vec<usize>)
    ensures
        r@.len() == ws_words(text@).len(),
        forall|k: int| 0 <= k < r@.len() ==> r@[k] as nat == word_bucket(#[trigger] ws_words(text@)[k]),
{
    let cs = str_chars(text);
    let ghost sv = cs@;
    let mut words: Vec<Vec<char>> = Vec::new();
    let mut i: usize = 0;
    while i < cs.len()
        invariant
            i <= cs@.len(),
            sv == cs@,
            words@.len() == ws_words(sv.take(i as int)).len(),
            forall|k: int| 0 <= k < words@.len() ==> #[trigger] words@[k]@ == ws_words(sv.take(i as int))[k],
        decreases cs.len() - i,
    {
        let c = cs[i];
        let ghost t = sv.take(i + 1);
        assert(t.drop_last() =~= sv.take(i as int));
        assert(t.last() == c);
        if char_is_ws(c) {
        } else if i >= 1 && !char_is_ws(cs[i - 1]) {
            proof {
                assert(sv.take(i as int).last() == sv[i - 1]);
                lemma_ws_words_last(sv.take(i as int));
                assert(t[t.len() - 2] == sv[i - 1]);
            }
            let mut last = words.pop().unwrap();
            last.push(c);
            words.push(last);
        } else {
            let mut w: Vec<char> = Vec::new();
            w.push(c);
            assert(w@ =~= seq![c]);
            words.push(w);
        }
        i = i + 1;
    }
    assert(sv.take(i as int) =~= sv);
    let mut r: Vec<usize> = Vec::new();
    let mut j: usize = 0;
    while j < words.len()
        invariant
            j <= words@.len(),
            words@.len() == ws_words(text@).len(),
            forall|k: int| 0 <= k < words@.len() ==> #[trigger] words@[k]@ == ws_words(text@)[k],
            r@.len() == j,
            forall|k: int| 0 <= k < j ==> r@[k] as nat == word_bucket(#[trigger] ws_words(text@)[k]),
        decreases words.len() - j,
    {
        let word = string_from_chars(&words[j]);
        let h = bytes_hash(word.as_str().as_bytes());
        let idx = (h as usize) % VECTOR_DIMENSION;
        r.push(idx);
        j = j + 1;
    }
    r
}

} // verus!
