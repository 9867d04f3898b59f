//! Request-head processing for the HTTP/WebSocket transport: line
//! splitting, whitespace trimming, bearer-token and query-token
//! authorization, and percent decoding. Everything works on the UTF-8 bytes
//! of the text; the delimiters involved are ASCII, so byte positions are
//! character boundaries.
use crate::text::{bytes_eq, bytes_starts_with, string_from_utf8};
use vstd::prelude::*;
use vstd::string::StringSliceAdditionalSpecFns;
use vstd::utf8::*;

verus! {

broadcast use vstd::string::group_string_axioms;

// ---- lines ----

/// Index of the first `c` at or after `from`, or `s.len()`.
pub open spec fn find_from(s: Seq<u8>, c: u8, from: int) -> int
    decreases s.len() - from,
{
    if from >= s.len() {
        s.len() as int
    } else if s[from] == c {
        from
    } else {
        find_from(s, c, from + 1)
    }
}

pub proof fn lemma_find_from(s: Seq<u8>, c: u8, from: int)
    requires
        0 <= from <= s.len(),
    ensures
        from <= find_from(s, c, from) <= s.len(),
        find_from(s, c, from) < s.len() ==> s[find_from(s, c, from)] == c,
        forall|j: int| from <= j < find_from(s, c, from) ==> s[j] != c,
    decreases s.len() - from,
{
    if from < s.len() && s[from] != c {
        lemma_find_from(s, c, from + 1);
    }
}

/// The bytes of the line that starts at `start` (`start < s.len()`): up to the
/// next `\n`; a `\r` right before that `\n` is not part of the line.
pub open spec fn line_end(s: Seq<u8>, start: int) -> int {
    let nl = find_from(s, 0x0a, start);
    if nl < s.len() && nl > start && s[nl - 1] == 0x0d {
        nl - 1
    } else {
        nl
    }
}

// ---- whitespace ----

pub open spec fn is_ascii_ws(b: u8) -> bool {
    (0x09 <= b <= 0x0d) || b == 0x20
}

/// Length of the UTF-8 encoding of a White_Space character that starts `s`
/// at `lo` (within `lo..hi`), or 0.
pub open spec fn ws_len_at(s: Seq<u8>, lo: int, hi: int) -> int {
    if hi - lo >= 1 && is_ascii_ws(s[lo]) {
        1
    } else if hi - lo >= 2 && s[lo] == 0xc2 && (s[lo + 1] == 0x85 || s[lo + 1] == 0xa0) {
        2
    } else if hi - lo >= 3 && s[lo] == 0xe1 && s[lo + 1] == 0x9a && s[lo + 2] == 0x80 {
        3
    } else if hi - lo >= 3 && s[lo] == 0xe2 && s[lo + 1] == 0x80 && ((0x80 <= s[lo + 2] <= 0x8a)
        || s[lo + 2] == 0xa8 || s[lo + 2] == 0xa9 || s[lo + 2] == 0xaf) {
        3
    } else if hi - lo >= 3 && s[lo] == 0xe2 && s[lo + 1] == 0x81 && s[lo + 2] == 0x9f {
        3
    } else if hi - lo >= 3 && s[lo] == 0xe3 && s[lo + 1] == 0x80 && s[lo + 2] == 0x80 {
        3
    } else {
        0
    }
}

/// Length of the UTF-8 encoding of a White_Space character that ends `lo..hi`, or 0.
pub open spec fn ws_len_before(s: Seq<u8>, lo: int, hi: int) -> int {
    if hi - lo >= 1 && is_ascii_ws(s[hi - 1]) {
        1
    } else if hi - lo >= 2 && ws_len_at(s, hi - 2, hi) == 2 {
        2
    } else if hi - lo >= 3 && ws_len_at(s, hi - 3, hi) == 3 {
        3
    } else {
        0
    }
}

/// Start of `lo..hi` after leading whitespace.
pub open spec fn trim_start_at(s: Seq<u8>, lo: int, hi: int) -> int
    decreases hi - lo,
{
    if lo < hi && ws_len_at(s, lo, hi) > 0 {
        trim_start_at(s, lo + ws_len_at(s, lo, hi), hi)
    } else {
        lo
    }
}

/// End of `lo..hi` before trailing whitespace.
pub open spec fn trim_end_at(s: Seq<u8>, lo: int, hi: int) -> int
    decreases hi - lo,
{
    if lo < hi && ws_len_before(s, lo, hi) > 0 {
        trim_end_at(s, lo, hi - ws_len_before(s, lo, hi))
    } else {
        hi
    }
}

fn is_ascii_ws_exec(b: u8) -> (r: bool)
    ensures
        r == is_ascii_ws(b),
{
    (0x09 <= b && b <= 0x0d) || b == 0x20
}

pub(crate) fn ws_len_at_exec(s: &[u8], lo: usize, hi: usize) -> (r: usize)
    requires
        lo <= hi <= s@.len(),
    ensures
        r == ws_len_at(s@, lo as int, hi as int),
{
    let n = hi - lo;
    if n >= 1 && is_ascii_ws_exec(s[lo]) {
        1
    } else if n >= 2 && s[lo] == 0xc2 && (s[lo + 1] == 0x85 || s[lo + 1] == 0xa0) {
        2
    } else if n >= 3 && s[lo] == 0xe1 && s[lo + 1] == 0x9a && s[lo + 2] == 0x80 {
        3
    } else if n >= 3 && s[lo] == 0xe2 && s[lo + 1] == 0x80 && ((0x80 <= s[lo + 2] && s[lo + 2]
        <= 0x8a) || s[lo + 2] == 0xa8 || s[lo + 2] == 0xa9 || s[lo + 2] == 0xaf) {
        3
    } else if n >= 3 && s[lo] == 0xe2 && s[lo + 1] == 0x81 && s[lo + 2] == 0x9f {
        3
    } else if n >= 3 && s[lo] == 0xe3 && s[lo + 1] == 0x80 && s[lo + 2] == 0x80 {
        3
    } else {
        0
    }
}

fn ws_len_before_exec(s: &[u8], lo: usize, hi: usize) -> (r: usize)
    requires
        lo <= hi <= s@.len(),
    ensures
        r == ws_len_before(s@, lo as int, hi as int),
{
    let n = hi - lo;
    if n >= 1 && is_ascii_ws_exec(s[hi - 1]) {
        1
    } else if n >= 2 && ws_len_at_exec(s, hi - 2, hi) == 2 {
        2
    } else if n >= 3 && ws_len_at_exec(s, hi - 3, hi) == 3 {
        3
    } else {
        0
    }
}

/// The bounds of `lo..hi` without leading and trailing whitespace
/// (what `str::trim` keeps).
pub fn trim_range(s: &[u8], lo: usize, hi: usize) -> (r: (usize, usize))
    requires
        lo <= hi <= s@.len(),
    ensures
        r.0 == trim_start_at(s@, lo as int, hi as int),
        r.1 == trim_end_at(s@, r.0 as int, hi as int),
        lo <= r.0 <= r.1 <= hi,
{
    let mut a = lo;
    while a < hi && ws_len_at_exec(s, a, hi) > 0
        invariant
            lo <= a <= hi <= s@.len(),
            trim_start_at(s@, a as int, hi as int) == trim_start_at(s@, lo as int, hi as int),
        decreases hi - a,
    {
        a = a + ws_len_at_exec(s, a, hi);
    }
    let mut b = hi;
    while a < b && ws_len_before_exec(s, a, b) > 0
        invariant
            a <= b <= hi <= s@.len(),
            trim_end_at(s@, a as int, b as int) == trim_end_at(s@, a as int, hi as int),
        decreases b - a,
    {
        b = b - ws_len_before_exec(s, a, b);
    }
    (a, b)
}

// ---- ASCII case ----

pub open spec fn ascii_lower(b: u8) -> u8 {
    if 0x41 <= b <= 0x5a { (b + 0x20) as u8 } else { b }
}

/// `s[lo..hi]`, ASCII-lowercased, equals `lower` (which is already lowercase).
pub open spec fn eq_ignore_case_at(s: Seq<u8>, lo: int, hi: int, lower: Seq<u8>) -> bool {
    hi - lo == lower.len() && forall|i: int| 0 <= i < lower.len() ==> ascii_lower(#[trigger] s[lo + i]) == ascii_lower(lower[i])
}

pub(crate) fn eq_ignore_case_exec(s: &[u8], lo: usize, hi: usize, other: &[u8]) -> (r: bool)
    requires
        lo <= hi <= s@.len(),
    ensures
        r == eq_ignore_case_at(s@, lo as int, hi as int, other@),
{
    if hi - lo != other.len() {
        return false;
    }
    let mut i: usize = 0;
    while i < other.len()
        invariant
            hi - lo == other@.len(),
            lo <= hi <= s@.len(),
            i <= other@.len(),
            forall|j: int| 0 <= j < i ==> ascii_lower(#[trigger] s@[lo + j]) == ascii_lower(other@[j]),
        decreases other@.len() - i,
    {
        let x = s[lo + i];
        let y = other[i];
        let lx = if 0x41 <= x && x <= 0x5a { x + 0x20 } else { x };
        let ly = if 0x41 <= y && y <= 0x5a { y + 0x20 } else { y };
        if lx != ly {
            return false;
        }
        i = i + 1;
    }
    true
}

/// Whether `s[lo..hi]` starts with `prefix`.
pub open spec fn starts_with_at(s: Seq<u8>, lo: int, hi: int, prefix: Seq<u8>) -> bool {
    hi - lo >= prefix.len() && s.subrange(lo, lo + prefix.len()) == prefix
}

fn starts_with_exec(s: &[u8], lo: usize, hi: usize, prefix: &[u8]) -> (r: bool)
    requires
        lo <= hi <= s@.len(),
    ensures
        r == starts_with_at(s@, lo as int, hi as int, prefix@),
{
    if hi - lo < prefix.len() {
        return false;
    }
    let mut i: usize = 0;
    while i < prefix.len()
        invariant
            hi - lo >= prefix@.len(),
            lo <= hi <= s@.len(),
            i <= prefix@.len(),
            forall|j: int| 0 <= j < i ==> s@[lo + j] == prefix@[j],
        decreases prefix@.len() - i,
    {
        if s[lo + i] != prefix[i] {
            assert(s@.subrange(lo as int, lo + prefix@.len())[i as int] != prefix@[i as int]);
            return false;
        }
        i = i + 1;
    }
    assert(s@.subrange(lo as int, lo + prefix@.len()) =~= prefix@);
    true
}

pub(crate) fn find_from_exec(s: &[u8], c: u8, from: usize) -> (r: usize)
    requires
        from <= s@.len(),
    ensures
        r == find_from(s@, c, from as int),
        from <= r <= s@.len(),
{
    let mut i = from;
    while i < s.len() && s[i] != c
        invariant
            from <= i <= s@.len(),
            find_from(s@, c, i as int) == find_from(s@, c, from as int),
        decreases s@.len() - i,
    {
        i = i + 1;
    }
    i
}

/// Index of the first `c` inside `lo..hi`, or `hi`.
pub open spec fn find_in(s: Seq<u8>, c: u8, lo: int, hi: int) -> int
    decreases hi - lo,
{
    if lo >= hi {
        hi
    } else if s[lo] == c {
        lo
    } else {
        find_in(s, c, lo + 1, hi)
    }
}

fn find_in_exec(s: &[u8], c: u8, lo: usize, hi: usize) -> (r: usize)
    requires
        lo <= hi <= s@.len(),
    ensures
        r == find_in(s@, c, lo as int, hi as int),
        lo <= r <= hi,
{
    let mut i = lo;
    while i < hi && s[i] != c
        invariant
            lo <= i <= hi <= s@.len(),
            find_in(s@, c, i as int, hi as int) == find_in(s@, c, lo as int, hi as int),
        decreases hi - i,
    {
        i = i + 1;
    }
    i
}

// ---- Authorization header ----

/// The bearer token carried by the line `lo..hi`: an `authorization:` header
/// (name compared case-insensitively, both sides trimmed) whose value starts
/// with `Bearer ` or `bearer `. Returns the token's byte range.
pub open spec fn bearer_in_line(s: Seq<u8>, lo: int, hi: int) -> Option<(int, int)> {
    let colon = find_in(s, 0x3a, lo, hi);
    if colon >= hi {
        None
    } else {
        let n0 = trim_start_at(s, lo, colon);
        let n1 = trim_end_at(s, n0, colon);
        let v0 = trim_start_at(s, colon + 1, hi);
        let v1 = trim_end_at(s, v0, hi);
        if !eq_ignore_case_at(s, n0, n1, authorization_lower()) {
            None
        } else if starts_with_at(s, v0, v1, bearer_upper()) || starts_with_at(
            s,
            v0,
            v1,
            bearer_lower(),
        ) {
            Some((v0 + 7, v1))
        } else {
            None
        }
    }
}

pub open spec fn authorization_lower() -> Seq<u8> {
    seq![0x61u8, 0x75, 0x74, 0x68, 0x6f, 0x72, 0x69, 0x7a, 0x61, 0x74, 0x69, 0x6f, 0x6e]
}

pub open spec fn bearer_upper() -> Seq<u8> {
    seq![0x42u8, 0x65, 0x61, 0x72, 0x65, 0x72, 0x20]
}

pub open spec fn bearer_lower() -> Seq<u8> {
    seq![0x62u8, 0x65, 0x61, 0x72, 0x65, 0x72, 0x20]
}

/// The first bearer token among the lines starting at `pos`.
pub open spec fn first_bearer_from(s: Seq<u8>, pos: int) -> Option<(int, int)>
    decreases s.len() - pos,
{
    if pos >= s.len() || pos < 0 {
        None
    } else {
        let nl = find_from(s, 0x0a, pos);
        proof {
            lemma_find_from(s, 0x0a, pos);
        }
        match bearer_in_line(s, pos, line_end(s, pos)) {
            Some(t) => Some(t),
            None => if nl < s.len() {
                first_bearer_from(s, nl + 1)
            } else {
                None
            },
        }
    }
}

fn authorization_lower_exec() -> (r: Vec<u8>)
    ensures
        r@ == authorization_lower(),
{
    let r = vec![0x61u8, 0x75, 0x74, 0x68, 0x6f, 0x72, 0x69, 0x7a, 0x61, 0x74, 0x69, 0x6f, 0x6e];
    assert(r@ =~= authorization_lower());
    r
}

fn bearer_prefixes() -> (r: (Vec<u8>, Vec<u8>))
    ensures
        r.0@ == bearer_upper(),
        r.1@ == bearer_lower(),
{
    let a = vec![0x42u8, 0x65, 0x61, 0x72, 0x65, 0x72, 0x20];
    let b = vec![0x62u8, 0x65, 0x61, 0x72, 0x65, 0x72, 0x20];
    assert(a@ =~= bearer_upper());
    assert(b@ =~= bearer_lower());
    (a, b)
}

pub(crate) fn line_end_exec(s: &[u8], start: usize) -> (r: (usize, usize))
    requires
        start < s@.len(),
    ensures
        r.0 == find_from(s@, 0x0a, start as int),
        r.1 == line_end(s@, start as int),
        start <= r.1 <= r.0 <= s@.len(),
{
    let nl = find_from_exec(s, 0x0a, start);
    let end = if nl < s.len() && nl > start && s[nl - 1] == 0x0d {
        nl - 1
    } else {
        nl
    };
    (nl, end)
}

fn bearer_in_line_exec(s: &[u8], lo: usize, hi: usize) -> (r: Option<(usize, usize)>)
    requires
        lo <= hi <= s@.len(),
    ensures
        r is None <==> bearer_in_line(s@, lo as int, hi as int) is None,
        r matches Some(p) ==> bearer_in_line(s@, lo as int, hi as int) == Some((p.0 as int, p.1 as int))
            && lo <= p.0 <= p.1 <= hi,
{
    let colon = find_in_exec(s, 0x3a, lo, hi);
    if colon >= hi {
        return None;
    }
    let (n0, n1) = trim_range(s, lo, colon);
    let (v0, v1) = trim_range(s, colon + 1, hi);
    let auth = authorization_lower_exec();
    if !eq_ignore_case_exec(s, n0, n1, auth.as_slice()) {
        return None;
    }
    let (upper, lower) = bearer_prefixes();
    if starts_with_exec(s, v0, v1, upper.as_slice()) || starts_with_exec(
        s,
        v0,
        v1,
        lower.as_slice(),
    ) {
        Some((v0 + 7, v1))
    } else {
        None
    }
}

/// The range of the first bearer token in the request head.
pub fn header_bearer_token(head: &[u8]) -> (r: Option<(usize, usize)>)
    ensures
        r is None <==> first_bearer_from(head@, 0) is None,
        r matches Some(p) ==> first_bearer_from(head@, 0) == Some((p.0 as int, p.1 as int)) && p.0
            <= p.1 <= head@.len(),
{
    let mut pos: usize = 0;
    while pos < head.len()
        invariant
            pos <= head@.len(),
            first_bearer_from(head@, pos as int) == first_bearer_from(head@, 0),
        decreases head@.len() - pos,
    {
        let (nl, end) = line_end_exec(head, pos);
        match bearer_in_line_exec(head, pos, end) {
            Some(t) => {
                return Some(t);
            },
            None => {},
        }
        if nl >= head.len() {
            return None;
        }
        pos = nl + 1;
    }
    None
}

// ---- constant-time comparison ----

pub open spec fn byte_or_zero(s: Seq<u8>, i: int) -> u8 {
    if 0 <= i < s.len() { s[i] } else { 0 }
}

/// Byte-string equality whose running time depends only on the lengths.
pub fn constant_time_eq(a: &[u8], b: &[u8]) -> (r: bool)
    ensures
        r == (a@ == b@),
{
    let mut diff: usize = a.len() ^ b.len();
    let n = if a.len() > b.len() { a.len() } else { b.len() };
    proof {
        let x = a.len();
        let y = b.len();
        assert((x ^ y == 0) == (x == y)) by (bit_vector);
    }
    let mut i: usize = 0;
    while i < n
        invariant
            n == (if a@.len() > b@.len() { a@.len() } else { b@.len() }),
            i <= n,
            (diff == 0) == (a@.len() == b@.len() && forall|j: int|
                0 <= j < i ==> byte_or_zero(a@, j) == byte_or_zero(b@, j)),
        decreases n - i,
    {
        let x: u8 = if i < a.len() { a[i] } else { 0 };
        let y: u8 = if i < b.len() { b[i] } else { 0 };
        let d = (x ^ y) as usize;
        proof {
            assert((x ^ y == 0) == (x == y)) by (bit_vector);
            assert(((x ^ y) as usize == 0) == (x ^ y == 0)) by (bit_vector);
            let old_diff = diff;
            assert(((old_diff | d) == 0) == (old_diff == 0 && d == 0)) by (bit_vector);
        }
        let ghost old_diff = diff;
        diff = diff | d;
        assert(x == byte_or_zero(a@, i as int) && y == byte_or_zero(b@, i as int));
        assert((diff == 0) == (a@.len() == b@.len() && forall|j: int|
            0 <= j < i + 1 ==> byte_or_zero(a@, j) == byte_or_zero(b@, j))) by {
            if diff == 0 {
                assert(old_diff == 0 && x == y);
            }
        }
        i = i + 1;
    }
    proof {
        if diff == 0 {
            assert forall|j: int| 0 <= j < a@.len() implies a@[j] == b@[j] by {
                assert(byte_or_zero(a@, j) == byte_or_zero(b@, j));
            }
            assert(a@ =~= b@);
        }
        if a@ == b@ {
            assert forall|j: int| 0 <= j < i implies byte_or_zero(a@, j) == byte_or_zero(b@, j) by {}
        }
    }
    diff == 0
}

// ---- percent decoding ----

pub open spec fn hex_value(b: u8) -> Option<u8> {
    if 0x30 <= b <= 0x39 {
        Some((b - 0x30) as u8)
    } else if 0x61 <= b <= 0x66 {
        Some((b - 0x61 + 10) as u8)
    } else if 0x41 <= b <= 0x46 {
        Some((b - 0x41 + 10) as u8)
    } else {
        None
    }
}

fn hex_value_exec(b: u8) -> (r: Option<u8>)
    ensures
        r == hex_value(b),
{
    if 0x30 <= b && b <= 0x39 {
        Some(b - 0x30)
    } else if 0x61 <= b && b <= 0x66 {
        Some(b - 0x61 + 10)
    } else if 0x41 <= b && b <= 0x46 {
        Some(b - 0x41 + 10)
    } else {
        None
    }
}

/// Percent decoding of `s[i..]`: `%XY` with two hex digits is one byte (a `%`
/// followed by a non-hex digit fails; one with fewer than two following bytes
/// stays literal), `+` is a space, every other byte is itself.
pub open spec fn pct_decode_from(s: Seq<u8>, i: int) -> Option<Seq<u8>>
    decreases s.len() - i,
{
    if i >= s.len() || i < 0 {
        Some(Seq::empty())
    } else if s[i] == 0x25 && i + 2 < s.len() {
        match (hex_value(s[i + 1]), hex_value(s[i + 2])) {
            (Some(hi), Some(lo)) => match pct_decode_from(s, i + 3) {
                Some(rest) => Some(seq![(hi * 16 + lo) as u8] + rest),
                None => None,
            },
            _ => None,
        }
    } else if s[i] == 0x2b {
        match pct_decode_from(s, i + 1) {
            Some(rest) => Some(seq![0x20u8] + rest),
            None => None,
        }
    } else {
        match pct_decode_from(s, i + 1) {
            Some(rest) => Some(seq![s[i]] + rest),
            None => None,
        }
    }
}

/// Percent-decode the bytes `s[lo..hi]`.
pub fn pct_decode_bytes(s: &[u8], lo: usize, hi: usize) -> (r: Option<Vec<u8>>)
    requires
        lo <= hi <= s@.len(),
    ensures
        match pct_decode_from(s@.subrange(lo as int, hi as int), 0) {
            Some(d) => r matches Some(v) && v@ == d,
            None => r is None,
        },
{
    let ghost t = s@.subrange(lo as int, hi as int);
    let mut out: Vec<u8> = Vec::new();
    let mut i = lo;
    while i < hi
        invariant
            lo <= i <= hi <= s@.len(),
            t == s@.subrange(lo as int, hi as int),
            pct_decode_from(t, 0) == match pct_decode_from(t, i - lo) {
                Some(rest) => Some(out@ + rest),
                None => None::<Seq<u8>>,
            },
        decreases hi - i,
    {
        let ghost k = i - lo;
        let ghost before = out@;
        let b = s[i];
        if b == 0x25 && hi - i > 2 {
            let h = hex_value_exec(s[i + 1]);
            let l = hex_value_exec(s[i + 2]);
            match (h, l) {
                (Some(h), Some(l)) => {
                    proof {
                        assert(h < 16 && l < 16);
                    }
                    out.push(h * 16 + l);
                    proof {
                        match pct_decode_from(t, k + 3) {
                            Some(rest) => {
                                assert(seq![(h * 16 + l) as u8] + rest =~= seq![(h * 16 + l) as u8]
                                    + rest);
                                assert(out@ + rest =~= before + (seq![(h * 16 + l) as u8] + rest));
                            },
                            None => {},
                        }
                    }
                    i = i + 3;
                },
                _ => {
                    return None;
                },
            }
        } else if b == 0x2b {
            out.push(0x20u8);
            proof {
                match pct_decode_from(t, k + 1) {
                    Some(rest) => {
                        assert(out@ + rest =~= before + (seq![0x20u8] + rest));
                    },
                    None => {},
                }
            }
            i = i + 1;
        } else {
            out.push(b);
            proof {
                match pct_decode_from(t, k + 1) {
                    Some(rest) => {
                        assert(out@ + rest =~= before + (seq![b] + rest));
                    },
                    None => {},
                }
            }
            i = i + 1;
        }
    }
    assert(out@ + Seq::<u8>::empty() =~= out@);
    Some(out)
}

/// Percent-decode `input` into a string; `None` when an escape is malformed or
/// the decoded bytes are not UTF-8.
pub fn percent_decode(input: &str) -> (r: Option<String>)
    ensures
        match pct_decode_from(input.spec_bytes(), 0) {
            Some(d) => if valid_utf8(d) {
                r matches Some(out) && out@ == decode_utf8(d)
            } else {
                r is None
            },
            None => r is None,
        },
{
    let bytes = input.as_bytes();
    let n = bytes.len();
    assert(bytes@.subrange(0, n as int) =~= bytes@);
    match pct_decode_bytes(bytes, 0, n) {
        Some(v) => string_from_utf8(v),
        None => None,
    }
}

// ---- query parameters ----

/// The value of the first `name=value` pair of the query in `path` (after the
/// first `?`, pairs separated by `&`, split at the first `=`) whose name is
/// `wanted` and whose value percent-decodes to UTF-8; pairs are examined from `pos`.
pub open spec fn query_value_from(path: Seq<u8>, wanted: Seq<u8>, pos: int) -> Option<Seq<u8>>
    decreases path.len() - pos,
{
    if pos > path.len() || pos < 0 {
        None
    } else {
        let amp = find_from(path, 0x26, pos);
        proof {
            lemma_find_from(path, 0x26, pos);
        }
        let eq = find_in(path, 0x3d, pos, amp);
        let found = if eq < amp && path.subrange(pos, eq) == wanted {
            match pct_decode_from(path.subrange(eq + 1, amp), 0) {
                Some(d) => if valid_utf8(d) {
                    Some(d)
                } else {
                    None
                },
                None => None,
            }
        } else {
            None
        };
        match found {
            Some(v) => Some(v),
            None => if amp < path.len() {
                query_value_from(path, wanted, amp + 1)
            } else {
                None
            },
        }
    }
}

/// The decoded bytes of query parameter `wanted` in `path`.
pub open spec fn spec_query_param(path: Seq<u8>, wanted: Seq<u8>) -> Option<Seq<u8>> {
    let q = find_from(path, 0x3f, 0);
    if q >= path.len() {
        None
    } else {
        query_value_from(path, wanted, q + 1)
    }
}

/// Decoded value of query parameter `wanted` in the bytes of a path.
pub fn query_param_bytes(path_bytes: &[u8], wanted_bytes: &[u8]) -> (r: Option<String>)
    ensures
        match spec_query_param(path_bytes@, wanted_bytes@) {
            Some(d) => r matches Some(out) && out@ == decode_utf8(d) && valid_utf8(d),
            None => r is None,
        },
{
    let ghost p = path_bytes@;
    let ghost w = wanted_bytes@;
    let q = find_from_exec(path_bytes, 0x3f, 0);
    if q >= path_bytes.len() {
        return None;
    }
    let mut pos = q + 1;
    while pos <= path_bytes.len()
        invariant
            p == path_bytes@,
            w == wanted_bytes@,
            q < p.len(),
            q + 1 <= pos <= p.len(),
            query_value_from(p, w, pos as int) == spec_query_param(p, w),
        decreases p.len() + 1 - pos,
    {
        let amp = find_from_exec(path_bytes, 0x26, pos);
        let eq = find_in_exec(path_bytes, 0x3d, pos, amp);
        if eq < amp {
            let name = crate::text::bytes_range(path_bytes, pos, eq);
            if bytes_eq(name.as_slice(), wanted_bytes) {
                match pct_decode_bytes(path_bytes, eq + 1, amp) {
                    Some(v) => {
                        match string_from_utf8(v) {
                            Some(out) => {
                                return Some(out);
                            },
                            None => {},
                        }
                    },
                    None => {},
                }
            }
        }
        if amp >= path_bytes.len() {
            return None;
        }
        pos = amp + 1;
    }
    None
}

/// Decoded value of query parameter `wanted` in `path`.
pub fn query_param(path: &str, wanted: &str) -> (r: Option<String>)
    ensures
        match spec_query_param(path.spec_bytes(), wanted.spec_bytes()) {
            Some(d) => r matches Some(out) && out@ == decode_utf8(d) && valid_utf8(d),
            None => r is None,
        },
{
    query_param_bytes(path.as_bytes(), wanted.as_bytes())
}

// ---- authorization ----

pub open spec fn token_name() -> Seq<u8> {
    seq![0x74u8, 0x6f, 0x6b, 0x65, 0x6e]
}

/// Whether a request with this head and path presents the expected token:
/// as a bearer `Authorization` header, or as a `token` query parameter.
pub open spec fn spec_authorized(head: Seq<u8>, path: Seq<u8>, expected: Option<Seq<u8>>) -> bool {
    match expected {
        None => true,
        Some(e) => (match first_bearer_from(head, 0) {
            Some(t) => head.subrange(t.0, t.1) == e,
            None => false,
        }) || (match spec_query_param(path, token_name()) {
            Some(d) => d == e,
            None => false,
        }),
    }
}

/// Whether the bytes of a request head and path present the expected token.
pub fn authorized_bytes(head_bytes: &[u8], path_bytes: &[u8], expected: Option<&[u8]>) -> (r: bool)
    ensures
        r == spec_authorized(
            head_bytes@,
            path_bytes@,
            match expected {
                Some(e) => Some(e@),
                None => None,
            },
        ),
{
    let expected_bytes = match expected {
        Some(e) => e,
        None => {
            return true;
        },
    };
    match header_bearer_token(head_bytes) {
        Some((a, b)) => {
            let candidate = crate::text::bytes_range(head_bytes, a, b);
            if constant_time_eq(candidate.as_slice(), expected_bytes) {
                return true;
            }
        },
        None => {},
    }
    let name = "token";
    proof {
        reveal_strlit("token");
        is_ascii_chars_encode_utf8(name@);
        assert(name.spec_bytes() =~= token_name());
    }
    match query_param_bytes(path_bytes, name.as_bytes()) {
        Some(candidate) => {
            proof {
                let d = spec_query_param(path_bytes@, token_name())->Some_0;
                decode_utf8_encode_utf8(d);
            }
            constant_time_eq(candidate.as_str().as_bytes(), expected_bytes)
        },
        None => false,
    }
}

pub fn authorized_http_request(head: &str, raw_path: &str, expected: Option<&str>) -> (r: bool)
    ensures
        r == spec_authorized(
            head.spec_bytes(),
            raw_path.spec_bytes(),
            match expected {
                Some(e) => Some(e.spec_bytes()),
                None => None,
            },
        ),
{
    let e = match expected {
        Some(e) => Some(e.as_bytes()),
        None => None,
    };
    authorized_bytes(head.as_bytes(), raw_path.as_bytes(), e)
}

} // verus!
