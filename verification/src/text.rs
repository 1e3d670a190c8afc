//! Character-level string helpers with specifications over `Seq<char>`.
use vstd::prelude::*;
use vstd::string::StrSliceExecFns;
use vstd::utf8::*;

verus! {

/// Appends one character to a `String` (std `String::push`).
///
/// Trusted: `String::push` appends `c` at the end of the string, as its
/// documentation states.
#[verifier::external_body]
pub fn push_char(s: &mut String, c: char)
    ensures
        final(s)@ == old(s)@.push(c),
{
    s.push(c);
}

/// The characters of `s`, in order.
pub fn str_chars(s: &str) -> (r: Vec<char>)
    ensures
        r@ == s@,
{
    let n = s.unicode_len();
    let mut r: Vec<char> = Vec::new();
    let mut i: usize = 0;
    while i < n
        invariant
            n == s@.len(),
            i <= n,
            r@ == s@.subrange(0, i as int),
        decreases n - i,
    {
        let c = s.get_char(i);
        r.push(c);
        i = i + 1;
        assert(r@ =~= s@.subrange(0, i as int));
    }
    assert(r@ =~= s@);
    r
}

/// Builds a `String` holding exactly the given characters.
pub fn string_from_chars(cs: &Vec<char>) -> (r: String)
    ensures
        r@ == cs@,
{
    let mut r = String::new();
    let mut i: usize = 0;
    while i < cs.len()
        invariant
            i <= cs.len(),
            r@ == cs@.subrange(0, i as int),
        decreases cs.len() - i,
    {
        push_char(&mut r, cs[i]);
        i = i + 1;
        assert(r@ =~= cs@.subrange(0, i as int));
    }
    assert(r@ =~= cs@);
    r
}

/// `needle` occurs in `hay` at position `i`.
pub open spec fn occurs_at(hay: Seq<char>, needle: Seq<char>, i: int) -> bool {
    0 <= i && i + needle.len() <= hay.len() && hay.subrange(i, i + needle.len()) == needle
}

/// `needle` occurs somewhere in `hay` (the empty needle occurs everywhere).
pub open spec fn contains_seq(hay: Seq<char>, needle: Seq<char>) -> bool {
    exists|i: int| occurs_at(hay, needle, i)
}

/// `hay` begins with `prefix`.
pub open spec fn starts_with_seq(hay: Seq<char>, prefix: Seq<char>) -> bool {
    prefix.len() <= hay.len() && hay.subrange(0, prefix.len() as int) == prefix
}

/// Whether `hay[i..]` begins with `needle`.
pub fn matches_at(hay: &Vec<char>, needle: &Vec<char>, i: usize) -> (b: bool)
    requires
        i <= hay.len(),
    ensures
        b == occurs_at(hay@, needle@, i as int),
{
    if needle.len() > hay.len() - i {
        return false;
    }
    let mut j: usize = 0;
    while j < needle.len()
        invariant
            i + needle.len() <= hay.len(),
            j <= needle.len(),
            forall|k: int| 0 <= k < j ==> hay@[i + k] == needle@[k],
        decreases needle.len() - j,
    {
        if hay[i + j] != needle[j] {
            assert(hay@.subrange(i as int, i + needle.len())[j as int] != needle@[j as int]);
            return false;
        }
        j = j + 1;
    }
    assert(hay@.subrange(i as int, i + needle@.len()) =~= needle@);
    true
}

/// Substring search over characters.
pub fn contains_chars(hay: &Vec<char>, needle: &Vec<char>) -> (b: bool)
    ensures
        b == contains_seq(hay@, needle@),
{
    if needle.len() > hay.len() {
        return false;
    }
    if needle.len() == 0 {
        assert(hay@.subrange(0, 0) =~= needle@);
        assert(occurs_at(hay@, needle@, 0));
        return true;
    }
    let last = hay.len() - needle.len();
    let mut i: usize = 0;
    while i <= last
        invariant
            last + needle.len() == hay.len(),
            needle.len() >= 1,
            i <= last + 1,
            forall|k: int| 0 <= k < i ==> !occurs_at(hay@, needle@, k),
        decreases last + 1 - i,
    {
        if matches_at(hay, needle, i) {
            return true;
        }
        i = i + 1;
    }
    assert forall|k: int| !occurs_at(hay@, needle@, k) by {
        if 0 <= k && k < i {
        } else if k >= i {
            assert(k + needle@.len() > hay@.len());
        }
    }
    false
}

/// Substring search on string slices.
pub fn str_contains(hay: &str, needle: &str) -> (b: bool)
    ensures
        b == contains_seq(hay@, needle@),
{
    let h = str_chars(hay);
    let n = str_chars(needle);
    contains_chars(&h, &n)
}

/// Prefix test on character vectors.
pub fn starts_with_chars(hay: &Vec<char>, prefix: &Vec<char>) -> (b: bool)
    ensures
        b == starts_with_seq(hay@, prefix@),
{
    if prefix.len() > hay.len() {
        return false;
    }
    let b = matches_at(hay, prefix, 0);
    b
}

/// Prefix test on string slices.
pub fn str_starts_with(hay: &str, prefix: &str) -> (b: bool)
    ensures
        b == starts_with_seq(hay@, prefix@),
{
    let h = str_chars(hay);
    let p = str_chars(prefix);
    starts_with_chars(&h, &p)
}


/// Number of bytes of the UTF-8 encoding of `s` (what `str::len` returns).
pub open spec fn byte_len(s: Seq<char>) -> nat {
    encode_utf8(s).len()
}

/// UTF-8 width of a single character.
pub open spec fn char_width(c: char) -> nat {
    encode_scalar(c as u32).len()
}

pub proof fn lemma_encode_utf8_concat(a: Seq<char>, b: Seq<char>)
    ensures
        encode_utf8(a + b) == encode_utf8(a) + encode_utf8(b),
    decreases a.len(),
{
    if a.len() == 0 {
        assert(a + b =~= b);
        assert(encode_utf8(a) =~= Seq::<u8>::empty());
        assert(encode_utf8(a) + encode_utf8(b) =~= encode_utf8(b));
    } else {
        assert((a + b).drop_first() =~= a.drop_first() + b);
        lemma_encode_utf8_concat(a.drop_first(), b);
        assert(encode_utf8(a + b) =~= encode_scalar(a[0] as u32) + encode_utf8(a.drop_first() + b));
        assert(encode_utf8(a + b) =~= encode_utf8(a) + encode_utf8(b));
    }
}

/// Byte length is additive over concatenation.
pub proof fn lemma_byte_len_concat(a: Seq<char>, b: Seq<char>)
    ensures
        byte_len(a + b) == byte_len(a) + byte_len(b),
{
    lemma_encode_utf8_concat(a, b);
}

/// Byte length of a one-character sequence.
pub proof fn lemma_byte_len_single(c: char)
    ensures
        byte_len(seq![c]) == char_width(c),
        1 <= char_width(c) <= 4,
{
    assert(seq![c].drop_first() =~= Seq::<char>::empty());
    assert(encode_utf8(seq![c]) =~= encode_scalar(c as u32) + encode_utf8(Seq::<char>::empty()));
    assert(encode_utf8(Seq::<char>::empty()) =~= Seq::<u8>::empty());
    assert(encode_utf8(seq![c]) =~= encode_scalar(c as u32));
}

/// Byte length of a sequence extended by one character.
pub proof fn lemma_byte_len_push(a: Seq<char>, c: char)
    ensures
        byte_len(a.push(c)) == byte_len(a) + char_width(c),
{
    assert(a.push(c) =~= a + seq![c]);
    lemma_byte_len_concat(a, seq![c]);
    lemma_byte_len_single(c);
}

/// Byte lengths of prefixes never decrease.
pub proof fn lemma_byte_len_take_mono(s: Seq<char>, i: int, j: int)
    requires
        0 <= i <= j <= s.len(),
    ensures
        byte_len(s.take(i)) <= byte_len(s.take(j)),
        i < j ==> byte_len(s.take(i)) < byte_len(s.take(j)),
{
    assert(s.take(j) =~= s.take(i) + s.subrange(i, j));
    lemma_byte_len_concat(s.take(i), s.subrange(i, j));
    if i < j {
        let t = s.subrange(i, j);
        assert(t =~= seq![t[0]] + t.drop_first());
        lemma_byte_len_concat(seq![t[0]], t.drop_first());
        lemma_byte_len_single(t[0]);
    }
}

/// UTF-8 width of a character.
pub fn char_utf8_width(c: char) -> (w: usize)
    ensures
        w == char_width(c),
        1 <= w <= 4,
{
    proof {
        char_is_scalar(c);
    }
    let v = c as u32;
    if v <= 0x7F {
        1
    } else if v <= 0x7FF {
        2
    } else if v <= 0xFFFF {
        3
    } else {
        4
    }
}

/// Byte length of a character sequence.
pub fn chars_byte_len(cs: &Vec<char>) -> (n: usize)
    requires
        byte_len(cs@) <= usize::MAX,
    ensures
        n == byte_len(cs@),
{
    let mut n: usize = 0;
    let mut i: usize = 0;
    while i < cs.len()
        invariant
            i <= cs.len(),
            n == byte_len(cs@.take(i as int)),
            byte_len(cs@) <= usize::MAX,
        decreases cs.len() - i,
    {
        proof {
            lemma_byte_len_push(cs@.take(i as int), cs@[i as int]);
            assert(cs@.take(i + 1) =~= cs@.take(i as int).push(cs@[i as int]));
            lemma_byte_len_take_mono(cs@, i + 1, cs@.len() as int);
            assert(cs@.take(cs@.len() as int) =~= cs@);
        }
        let w = char_utf8_width(cs[i]);
        n = n + w;
        i = i + 1;
    }
    assert(cs@.take(cs@.len() as int) =~= cs@);
    n
}

/// Number of leading characters of `s` whose encoding takes exactly `b` bytes,
/// if `b` falls on a character boundary.
pub open spec fn prefix_chars_for_bytes(s: Seq<char>, b: nat) -> Option<nat> {
    if exists|k: nat| k <= s.len() && byte_len(s.take(k as int)) == b {
        Some(choose|k: nat| k <= s.len() && byte_len(s.take(k as int)) == b)
    } else {
        None
    }
}

pub proof fn lemma_prefix_unique(s: Seq<char>, k1: nat, k2: nat)
    requires
        k1 <= s.len(),
        k2 <= s.len(),
        byte_len(s.take(k1 as int)) == byte_len(s.take(k2 as int)),
    ensures
        k1 == k2,
{
    if k1 < k2 {
        lemma_byte_len_take_mono(s, k1 as int, k2 as int);
    } else if k2 < k1 {
        lemma_byte_len_take_mono(s, k2 as int, k1 as int);
    }
}

/// Finds the character index where byte offset `b` falls, if it is a boundary.
pub fn char_index_at_byte(cs: &Vec<char>, b: usize) -> (r: Option<usize>)
    ensures
        r matches Some(k) ==> prefix_chars_for_bytes(cs@, b as nat) == Some(k as nat),
        r is None ==> prefix_chars_for_bytes(cs@, b as nat) is None,
{
    let mut acc: usize = 0;
    let mut i: usize = 0;
    while i < cs.len() && acc < b
        invariant
            i <= cs.len(),
            acc == byte_len(cs@.take(i as int)),
            acc <= b,
            forall|k: nat| k < i ==> byte_len(cs@.take(k as int)) < b,
        decreases cs.len() - i,
    {
        proof {
            lemma_byte_len_push(cs@.take(i as int), cs@[i as int]);
            assert(cs@.take(i + 1) =~= cs@.take(i as int).push(cs@[i as int]));
        }
        let w = char_utf8_width(cs[i]);
        if w > b - acc {
            proof {
                assert forall|k: nat| k <= cs@.len() implies byte_len(cs@.take(k as int)) != b by {
                    if k <= i {
                    } else {
                        lemma_byte_len_take_mono(cs@, i + 1, k as int);
                    }
                }
            }
            return None;
        }
        acc = acc + w;
        i = i + 1;
    }
    if acc == b {
        proof {
            assert(byte_len(cs@.take(i as int)) == b);
            let k = choose|k: nat| k <= cs@.len() && byte_len(cs@.take(k as int)) == b;
            lemma_prefix_unique(cs@, k, i as nat);
        }
        Some(i)
    } else {
        proof {
            assert(i == cs.len());
            assert forall|k: nat| k <= cs@.len() implies byte_len(cs@.take(k as int)) != b by {
                if k < i {
                }
            }
        }
        None
    }
}


/// Unicode `White_Space` (what `char::is_whitespace` tests).
pub open spec fn is_ws(c: char) -> bool {
    let v = c as u32;
    ||| 0x09 <= v <= 0x0D
    ||| v == 0x20
    ||| v == 0x85
    ||| v == 0xA0
    ||| v == 0x1680
    ||| 0x2000 <= v <= 0x200A
    ||| v == 0x2028
    ||| v == 0x2029
    ||| v == 0x202F
    ||| v == 0x205F
    ||| v == 0x3000
}

/// Whitespace test on one character.
pub fn char_is_ws(c: char) -> (b: bool)
    ensures
        b == is_ws(c),
{
    let v = c as u32;
    (0x09 <= v && v <= 0x0D) || v == 0x20 || v == 0x85 || v == 0xA0 || v == 0x1680 || (0x2000
        <= v && v <= 0x200A) || v == 0x2028 || v == 0x2029 || v == 0x202F || v == 0x205F || v
        == 0x3000
}

/// Index of the first non-whitespace character at or after `i` (or `s.len()`).
pub open spec fn first_non_ws_from(s: Seq<char>, i: int) -> int
    decreases s.len() - i,
{
    if i >= s.len() {
        s.len() as int
    } else if is_ws(s[i]) {
        first_non_ws_from(s, i + 1)
    } else {
        i
    }
}

/// One past the last non-whitespace character at or before `j - 1` (or `lo`).
pub open spec fn last_non_ws_before(s: Seq<char>, lo: int, j: int) -> int
    decreases j - lo,
{
    if j <= lo {
        lo
    } else if is_ws(s[j - 1]) {
        last_non_ws_before(s, lo, j - 1)
    } else {
        j
    }
}

/// `str::trim`: the string without leading and trailing whitespace.
pub open spec fn trim_seq(s: Seq<char>) -> Seq<char> {
    let a = first_non_ws_from(s, 0);
    s.subrange(a, last_non_ws_before(s, a, s.len() as int))
}

proof fn lemma_first_non_ws_bounds(s: Seq<char>, i: int)
    requires
        0 <= i <= s.len(),
    ensures
        i <= first_non_ws_from(s, i) <= s.len(),
    decreases s.len() - i,
{
    if i < s.len() && is_ws(s[i]) {
        lemma_first_non_ws_bounds(s, i + 1);
    }
}

proof fn lemma_last_non_ws_bounds(s: Seq<char>, lo: int, j: int)
    requires
        0 <= lo <= j <= s.len(),
    ensures
        lo <= last_non_ws_before(s, lo, j) <= j,
    decreases j - lo,
{
    if j > lo && is_ws(s[j - 1]) {
        lemma_last_non_ws_bounds(s, lo, j - 1);
    }
}

/// Trims whitespace at both ends of a character vector.
pub fn trim_chars(cs: &Vec<char>) -> (r: Vec<char>)
    ensures
        r@ == trim_seq(cs@),
{
    let mut a: usize = 0;
    while a < cs.len() && char_is_ws(cs[a])
        invariant
            a <= cs.len(),
            first_non_ws_from(cs@, a as int) == first_non_ws_from(cs@, 0),
        decreases cs.len() - a,
    {
        a = a + 1;
    }
    let mut b: usize = cs.len();
    proof {
        lemma_first_non_ws_bounds(cs@, 0);
    }
    while b > a && char_is_ws(cs[b - 1])
        invariant
            a <= b <= cs.len(),
            a == first_non_ws_from(cs@, 0),
            last_non_ws_before(cs@, a as int, b as int) == last_non_ws_before(
                cs@,
                a as int,
                cs.len() as int,
            ),
        decreases b - a,
    {
        b = b - 1;
    }
    let mut r: Vec<char> = Vec::new();
    let mut k: usize = a;
    while k < b
        invariant
            a <= k <= b <= cs.len(),
            r@ == cs@.subrange(a as int, k as int),
        decreases b - k,
    {
        r.push(cs[k]);
        k = k + 1;
        assert(r@ =~= cs@.subrange(a as int, k as int));
    }
    r
}

/// `str::trim` on string slices.
pub fn str_trim(s: &str) -> (r: String)
    ensures
        r@ == trim_seq(s@),
{
    let cs = str_chars(s);
    let t = trim_chars(&cs);
    string_from_chars(&t)
}

/// What `str::to_lowercase` returns for the given characters (Unicode lowercase
/// mapping, which takes pages to state).
pub uninterp spec fn lowercase(s: Seq<char>) -> Seq<char>;

/// std `str::to_lowercase`.
///
/// Trusted: the result is a function of the input characters alone, named
/// `lowercase`; nothing else is claimed of it.
#[verifier::external_body]
pub fn to_lowercase(s: &str) -> (r: String)
    ensures
        r@ == lowercase(s@),
{
    s.to_lowercase()
}

/// Replaces every line feed by a space (`str::replace('\n', " ")`).
pub open spec fn newlines_to_spaces(s: Seq<char>) -> Seq<char> {
    s.map_values(|c: char| if c == '\n' { ' ' } else { c })
}

/// Line feeds replaced by spaces.
pub fn replace_newlines(cs: &Vec<char>) -> (r: Vec<char>)
    ensures
        r@ == newlines_to_spaces(cs@),
{
    let mut r: Vec<char> = Vec::new();
    let mut i: usize = 0;
    while i < cs.len()
        invariant
            i <= cs.len(),
            r@ == newlines_to_spaces(cs@.take(i as int)),
        decreases cs.len() - i,
    {
        let c = if cs[i] == '\n' { ' ' } else { cs[i] };
        r.push(c);
        i = i + 1;
        assert(r@ =~= newlines_to_spaces(cs@.take(i as int)));
    }
    assert(cs@.take(cs@.len() as int) =~= cs@);
    r
}

/// The ASCII digit for `d < 10`.
pub open spec fn digit_char(d: nat) -> char {
    (('0' as u32) + d) as char
}

/// Decimal representation of a natural number (what `Display` prints for integers).
pub open spec fn decimal(n: nat) -> Seq<char>
    decreases n,
{
    if n < 10 {
        seq![digit_char(n)]
    } else {
        decimal(n / 10).push(digit_char(n % 10))
    }
}

fn digit(d: usize) -> (c: char)
    requires
        d < 10,
    ensures
        c == digit_char(d as nat),
{
    if d == 0 { '0' } else if d == 1 { '1' } else if d == 2 { '2' } else if d == 3 { '3' }
    else if d == 4 { '4' } else if d == 5 { '5' } else if d == 6 { '6' } else if d == 7 { '7' }
    else if d == 8 { '8' } else { '9' }
}

/// Decimal digits of `n`.
pub fn decimal_chars(n: usize) -> (r: Vec<char>)
    ensures
        r@ == decimal(n as nat),
    decreases n,
{
    if n < 10 {
        let mut r: Vec<char> = Vec::new();
        r.push(digit(n));
        assert(r@ =~= seq![digit_char(n as nat)]);
        r
    } else {
        let mut r = decimal_chars(n / 10);
        r.push(digit(n % 10));
        r
    }
}

/// Decimal digits of a 64-bit number.
pub fn decimal_chars_u64(n: u64) -> (r: Vec<char>)
    ensures
        r@ == decimal(n as nat),
    decreases n,
{
    if n < 10 {
        let mut r: Vec<char> = Vec::new();
        r.push(digit(n as usize));
        assert(r@ =~= seq![digit_char(n as nat)]);
        r
    } else {
        let mut r = decimal_chars_u64(n / 10);
        r.push(digit((n % 10) as usize));
        r
    }
}

/// Decimal representation of an integer, with `-` before a negative one.
pub open spec fn signed_decimal(n: int) -> Seq<char> {
    if n < 0 {
        seq!['-'] + decimal((-n) as nat)
    } else {
        decimal(n as nat)
    }
}

/// Decimal digits of a signed 64-bit number.
pub fn signed_decimal_chars(n: i64) -> (r: Vec<char>)
    ensures
        r@ == signed_decimal(n as int),
{
    if n < 0 {
        let wide: i128 = n as i128;
        let m: u64 = (0i128 - wide) as u64;
        let d = decimal_chars_u64(m);
        let mut r: Vec<char> = Vec::new();
        r.push('-');
        append_chars(&mut r, &d);
        assert(r@ =~= seq!['-'] + decimal((-(n as int)) as nat));
        r
    } else {
        decimal_chars_u64(n as u64)
    }
}

/// Appends the characters of `b` to `a`.
pub fn append_chars(a: &mut Vec<char>, b: &Vec<char>)
    ensures
        final(a)@ == old(a)@ + b@,
{
    let mut i: usize = 0;
    while i < b.len()
        invariant
            i <= b.len(),
            a@ == old(a)@ + b@.take(i as int),
        decreases b.len() - i,
    {
        a.push(b[i]);
        i = i + 1;
        assert(a@ =~= old(a)@ + b@.take(i as int));
    }
    assert(b@.take(b@.len() as int) =~= b@);
}

/// Appends the characters of a string slice to `a`.
pub fn append_str(a: &mut Vec<char>, s: &str)
    ensures
        final(a)@ == old(a)@ + s@,
{
    let cs = str_chars(s);
    append_chars(a, &cs);
}

/// Lower-case hexadecimal digit for `d < 16`.
pub open spec fn hex_digit(d: nat) -> char {
    if d < 10 {
        digit_char(d)
    } else {
        (('a' as u32) + (d - 10)) as char
    }
}

/// Two lower-case hex digits per byte (`{:x}` of a digest).
pub open spec fn hex_lower(bytes: Seq<u8>) -> Seq<char>
    decreases bytes.len(),
{
    if bytes.len() == 0 {
        Seq::empty()
    } else {
        hex_lower(bytes.drop_last()).push(hex_digit((bytes.last() / 16) as nat)).push(
            hex_digit((bytes.last() % 16) as nat),
        )
    }
}

fn hex_char(d: u8) -> (c: char)
    requires
        d < 16,
    ensures
        c == hex_digit(d as nat),
{
    if d < 10 {
        digit(d as usize)
    } else if d == 10 { 'a' } else if d == 11 { 'b' } else if d == 12 { 'c' } else if d == 13 { 'd' }
    else if d == 14 { 'e' } else { 'f' }
}

/// Lower-case hexadecimal rendering of bytes.
pub fn hex_chars(bytes: &Vec<u8>) -> (r: Vec<char>)
    ensures
        r@ == hex_lower(bytes@),
        r@.len() == 2 * bytes@.len(),
{
    let mut r: Vec<char> = Vec::new();
    let mut i: usize = 0;
    while i < bytes.len()
        invariant
            i <= bytes.len(),
            r@ == hex_lower(bytes@.take(i as int)),
            r@.len() == 2 * i,
        decreases bytes.len() - i,
    {
        let b = bytes[i];
        r.push(hex_char(b / 16));
        r.push(hex_char(b % 16));
        proof {
            let t = bytes@.take(i + 1);
            assert(t.drop_last() =~= bytes@.take(i as int));
        }
        i = i + 1;
    }
    assert(bytes@.take(bytes@.len() as int) =~= bytes@);
    r
}


/// `parts` joined with `sep` between consecutive parts.
pub open spec fn join(parts: Seq<Seq<char>>, sep: Seq<char>) -> Seq<char>
    decreases parts.len(),
{
    if parts.len() == 0 {
        Seq::empty()
    } else if parts.len() == 1 {
        parts[0]
    } else {
        join(parts.drop_last(), sep) + sep + parts.last()
    }
}

/// Views of a list of strings.
pub open spec fn views(v: Seq<String>) -> Seq<Seq<char>> {
    v.map_values(|s: String| s@)
}

/// Joins strings with a separator (`[String]::join`).
pub fn join_strings(parts: &Vec<String>, sep: &str) -> (r: String)
    ensures
        r@ == join(views(parts@), sep@),
{
    let ghost pv = views(parts@);
    let mut out: Vec<char> = Vec::new();
    let mut i: usize = 0;
    while i < parts.len()
        invariant
            i <= parts@.len(),
            pv == views(parts@),
            out@ == join(pv.take(i as int), sep@),
        decreases parts.len() - i,
    {
        if i > 0 {
            append_str(&mut out, sep);
        }
        append_str(&mut out, parts[i].as_str());
        proof {
            assert(pv.take(i + 1).drop_last() =~= pv.take(i as int));
            assert(pv[i as int] == parts@[i as int]@);
            if i == 0 {
                assert(join(pv.take(0), sep@) =~= Seq::<char>::empty());
            }
        }
        i = i + 1;
        assert(out@ =~= join(pv.take(i as int), sep@));
    }
    assert(pv.take(i as int) =~= pv);
    string_from_chars(&out)
}

/// Appends a string slice to a `String`.
pub fn push_str(s: &mut String, t: &str)
    ensures
        final(s)@ == old(s)@ + t@,
{
    let cs = str_chars(t);
    let mut i: usize = 0;
    while i < cs.len()
        invariant
            i <= cs@.len(),
            cs@ == t@,
            s@ == old(s)@ + cs@.take(i as int),
        decreases cs.len() - i,
    {
        push_char(s, cs[i]);
        i = i + 1;
        assert(s@ =~= old(s)@ + cs@.take(i as int));
    }
    assert(cs@.take(i as int) =~= t@);
}

/// Position of the first occurrence of `needle` in `hay`.
pub open spec fn first_occurrence(hay: Seq<char>, needle: Seq<char>) -> Option<int> {
    if contains_seq(hay, needle) {
        Some(choose|i: int| occurs_at(hay, needle, i) && forall|k: int| 0 <= k < i ==> !occurs_at(hay, needle, k))
    } else {
        None
    }
}

/// `s` with the first occurrence of `pat` removed (`str::replacen(pat, "", 1)`).
pub open spec fn remove_first(s: Seq<char>, pat: Seq<char>) -> Seq<char> {
    match first_occurrence(s, pat) {
        Some(i) => s.take(i) + s.skip(i + pat.len()),
        None => s,
    }
}

/// The first occurrence is an occurrence, with none before it.
pub proof fn lemma_first_occurrence(hay: Seq<char>, needle: Seq<char>)
    ensures
        first_occurrence(hay, needle) matches Some(i) ==> occurs_at(hay, needle, i) && forall|k: int|
            0 <= k < i ==> !occurs_at(hay, needle, k),
        first_occurrence(hay, needle) is None ==> forall|k: int| !occurs_at(hay, needle, k),
{
    if contains_seq(hay, needle) {
        let w = choose|w: int| occurs_at(hay, needle, w);
        assert(exists|m: int| occurs_at(hay, needle, m) && forall|k: int| 0 <= k < m ==> !occurs_at(hay, needle, k)) by {
            lemma_least_occurrence(hay, needle, w);
        }
    }
}

proof fn lemma_least_occurrence(hay: Seq<char>, needle: Seq<char>, w: int)
    requires
        occurs_at(hay, needle, w),
    ensures
        exists|m: int| occurs_at(hay, needle, m) && forall|k: int| 0 <= k < m ==> !occurs_at(hay, needle, k),
    decreases w,
{
    if exists|k: int| 0 <= k < w && occurs_at(hay, needle, k) {
        let k = choose|k: int| 0 <= k < w && occurs_at(hay, needle, k);
        lemma_least_occurrence(hay, needle, k);
    } else {
        assert(forall|k: int| 0 <= k < w ==> !occurs_at(hay, needle, k));
    }
}

/// Finds the first occurrence of `needle` in `hay`.
pub fn find_chars(hay: &Vec<char>, needle: &Vec<char>) -> (r: Option<usize>)
    ensures
        match r {
            Some(i) => first_occurrence(hay@, needle@) == Some(i as int),
            None => first_occurrence(hay@, needle@) is None,
        },
{
    proof {
        lemma_first_occurrence(hay@, needle@);
    }
    if needle.len() > hay.len() {
        assert forall|k: int| !occurs_at(hay@, needle@, k) by {}
        return None;
    }
    let last = hay.len() - needle.len();
    let mut i: usize = 0;
    loop
        invariant
            i <= last,
            last + needle.len() == hay.len(),
            forall|k: int| 0 <= k < i ==> !occurs_at(hay@, needle@, k),
            first_occurrence(hay@, needle@) matches Some(f) ==> occurs_at(hay@, needle@, f) && forall|k: int|
                0 <= k < f ==> !occurs_at(hay@, needle@, k),
            first_occurrence(hay@, needle@) is None ==> forall|k: int| !occurs_at(hay@, needle@, k),
        decreases last - i,
    {
        if matches_at(hay, needle, i) {
            proof {
                match first_occurrence(hay@, needle@) {
                    Some(f) => {
                        assert(!(f < i));
                        assert(!(i < f));
                    },
                    None => {},
                }
            }
            return Some(i);
        }
        if i == last {
            proof {
                assert forall|k: int| !occurs_at(hay@, needle@, k) by {
                    if 0 <= k && k <= last {
                    } else if k > last {
                        assert(k + needle@.len() > hay@.len());
                    }
                }
                assert(!(first_occurrence(hay@, needle@) is Some));
            }
            return None;
        }
        i = i + 1;
    }
}

/// Removes the first occurrence of `pat` from `s`.
pub fn remove_first_chars(s: &Vec<char>, pat: &Vec<char>) -> (r: Vec<char>)
    ensures
        r@ == remove_first(s@, pat@),
{
    proof {
        lemma_first_occurrence(s@, pat@);
    }
    match find_chars(s, pat) {
        Some(i) => {
            let mut r: Vec<char> = Vec::new();
            let mut k: usize = 0;
            while k < i
                invariant
                    k <= i,
                    i + pat@.len() <= s@.len(),
                    r@ == s@.take(k as int),
                decreases i - k,
            {
                r.push(s[k]);
                k = k + 1;
                assert(r@ =~= s@.take(k as int));
            }
            let total = s.len();
            let pl = pat.len();
            assert(i + pl <= total);
            let mut j: usize = i + pl;
            while j < s.len()
                invariant
                    i + pat@.len() <= j <= s@.len(),
                    r@ == s@.take(i as int) + s@.subrange(i + pat@.len(), j as int),
                decreases s.len() - j,
            {
                r.push(s[j]);
                j = j + 1;
                assert(r@ =~= s@.take(i as int) + s@.subrange(i + pat@.len(), j as int));
            }
            assert(r@ =~= s@.take(i as int) + s@.skip(i + pat@.len()));
            r
        },
        None => {
            let mut r: Vec<char> = Vec::new();
            append_chars(&mut r, s);
            assert(r@ =~= s@);
            r
        },
    }
}

/// Whether the UTF-8 encoding of `cs` is longer than `n` bytes.
pub fn byte_len_exceeds(cs: &Vec<char>, n: usize) -> (b: bool)
    ensures
        b == (byte_len(cs@) > n),
{
    let mut acc: usize = 0;
    let mut i: usize = 0;
    while i < cs.len()
        invariant
            i <= cs.len(),
            acc == byte_len(cs@.take(i as int)),
            acc <= n,
        decreases cs.len() - i,
    {
        proof {
            lemma_byte_len_push(cs@.take(i as int), cs@[i as int]);
            assert(cs@.take(i + 1) =~= cs@.take(i as int).push(cs@[i as int]));
        }
        let w = char_utf8_width(cs[i]);
        if w > n - acc {
            proof {
                lemma_byte_len_take_mono(cs@, i + 1, cs@.len() as int);
                assert(cs@.take(cs@.len() as int) =~= cs@);
            }
            return true;
        }
        acc = acc + w;
        i = i + 1;
    }
    assert(cs@.take(i as int) =~= cs@);
    false
}

/// The first `k` characters.
pub fn take_chars(cs: &Vec<char>, k: usize) -> (r: Vec<char>)
    requires
        k <= cs.len(),
    ensures
        r@ == cs@.take(k as int),
{
    let mut out: Vec<char> = Vec::new();
    let mut i: usize = 0;
    while i < k
        invariant
            i <= k,
            k <= cs.len(),
            out@ == cs@.take(i as int),
        decreases k - i,
    {
        out.push(cs[i]);
        i = i + 1;
        assert(out@ =~= cs@.take(i as int));
    }
    out
}

/// `s` cut to its first `b` bytes when its encoding is longer (`&s[..b]`).
pub open spec fn cut_at_bytes(s: Seq<char>, b: nat) -> Seq<char> {
    if byte_len(s) > b {
        match prefix_chars_for_bytes(s, b) {
            Some(k) => s.take(k as int),
            None => s,
        }
    } else {
        s
    }
}

/// The characters of `text` within its first `b` bytes; the cut must fall on
/// a character boundary, as byte slicing demands.
pub fn cut_str_at_bytes(text: &str, b: usize) -> (r: Vec<char>)
    requires
        byte_len(text@) > b ==> prefix_chars_for_bytes(text@, b as nat) is Some,
    ensures
        r@ == cut_at_bytes(text@, b as nat),
{
    let cs = str_chars(text);
    if byte_len_exceeds(&cs, b) {
        match char_index_at_byte(&cs, b) {
            Some(k) => {
                proof {
                    let w = choose|w: nat| w <= cs@.len() && byte_len(cs@.take(w as int)) == b;
                    assert(w <= cs@.len() && byte_len(cs@.take(w as int)) == b);
                }
                take_chars(&cs, k)
            },
            None => cs,
        }
    } else {
        cs
    }
}

/// `s` without the prefix `p` when it starts with it
/// (`strip_prefix(p).unwrap_or(s)`).
pub open spec fn strip_prefix_seq(s: Seq<char>, p: Seq<char>) -> Seq<char> {
    if starts_with_seq(s, p) {
        s.subrange(p.len() as int, s.len() as int)
    } else {
        s
    }
}

/// Removes the prefix `p` from `s` when `s` starts with it.
pub fn strip_prefix_str(s: &str, p: &str) -> (r: String)
    ensures
        r@ == strip_prefix_seq(s@, p@),
{
    if str_starts_with(s, p) {
        let cs = str_chars(s);
        let pn = p.unicode_len();
        let mut out: Vec<char> = Vec::new();
        let mut i: usize = pn;
        while i < cs.len()
            invariant
                pn <= i <= cs.len(),
                pn == p@.len(),
                out@ == cs@.subrange(pn as int, i as int),
            decreases cs.len() - i,
        {
            out.push(cs[i]);
            i = i + 1;
            assert(out@ =~= cs@.subrange(pn as int, i as int));
        }
        string_from_chars(&out)
    } else {
        s.to_owned()
    }
}

} // verus!
