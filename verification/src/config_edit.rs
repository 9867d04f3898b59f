//! Edits of the configuration file made on behalf of the settings GUI: the
//! dotted path of a setting, how a command-line value is typed, and the
//! pairing token. Reading and writing the TOML text is the caller's part.
use crate::text::{all_ascii, ascii_chars, ascii_string, bytes_range, string_from_utf8};
use crate::toml_doc::{diverge, find_entry, get_path, get_value, keys, parse_toml, set_value, toml_parse, TomlValue};
use vstd::prelude::*;
use vstd::string::StringSliceAdditionalSpecFns;
use vstd::utf8::*;

verus! {

broadcast use vstd::string::group_string_axioms;

// ---- dotted paths ----

/// The non-empty pieces of `s` between dots, as byte strings.
pub open spec fn dot_segments(s: Seq<u8>) -> Seq<Seq<u8>>
    decreases s.len(),
{
    if s.len() == 0 {
        Seq::empty()
    } else {
        let d = crate::http::find_from(s, 0x2e, 0);
        let head: Seq<Seq<u8>> = if d > 0 { seq![s.subrange(0, d)] } else { Seq::empty() };
        if d >= s.len() {
            head
        } else {
            proof {
                crate::http::lemma_find_from(s, 0x2e, 0);
            }
            head + dot_segments(s.subrange(d + 1, s.len() as int))
        }
    }
}

/// Searching a suffix finds the same byte, shifted.
proof fn lemma_find_from_suffix(s: Seq<u8>, c: u8, pos: int, i: int)
    requires
        0 <= pos <= i <= s.len(),
    ensures
        crate::http::find_from(s.subrange(pos, s.len() as int), c, i - pos) == crate::http::find_from(s, c, i)
            - pos,
    decreases s.len() - i,
{
    if i < s.len() && s[i] != c {
        lemma_find_from_suffix(s, c, pos, i + 1);
    }
}

/// Valid UTF-8 stays valid when cut where an ASCII byte starts.
proof fn lemma_cut_at_ascii(x: Seq<u8>, d: int)
    requires
        valid_utf8(x),
        0 <= d <= x.len(),
        d < x.len() ==> x[d] < 0x80,
    ensures
        valid_utf8(x.subrange(0, d)),
        valid_utf8(x.subrange(d, x.len() as int)),
{
    if d < x.len() {
        is_char_boundary_iff_not_is_continuation_byte(x, d);
    } else {
        is_char_boundary_start_end_of_seq(x);
    }
    valid_utf8_split(x, d);
}

/// Valid UTF-8 that starts with an ASCII byte stays valid without it.
proof fn lemma_drop_ascii(x: Seq<u8>)
    requires
        valid_utf8(x),
        x.len() > 0,
        x[0] < 0x80,
    ensures
        valid_utf8(x.subrange(1, x.len() as int)),
{
    assert(pop_first_scalar(x) == x.subrange(1, x.len() as int));
}

/// Splits a dotted path into its non-empty keys.
pub fn split_dotted(dotted: &str) -> (r: Vec<String>)
    ensures
        r@.len() == dot_segments(dotted.spec_bytes()).len(),
        forall|i: int|
            0 <= i < r@.len() ==> valid_utf8(dot_segments(dotted.spec_bytes())[i]) && #[trigger] r@[i]@
                == decode_utf8(dot_segments(dotted.spec_bytes())[i]),
{
    let b = dotted.as_bytes();
    let ghost s = b@;
    proof {
        encode_utf8_valid_utf8(dotted@);
    }
    let mut out: Vec<String> = Vec::new();
    let ghost mut done: Seq<Seq<u8>> = Seq::empty();
    let mut pos: usize = 0;
    proof {
        assert(s.subrange(0, s.len() as int) =~= s);
    }
    while pos < b.len()
        invariant
            s == b@,
            s == dotted.spec_bytes(),
            pos <= s.len(),
            valid_utf8(s.subrange(pos as int, s.len() as int)),
            done + dot_segments(s.subrange(pos as int, s.len() as int)) == dot_segments(s),
            out@.len() == done.len(),
            forall|i: int| #![trigger done[i]] 0 <= i < done.len() ==> valid_utf8(done[i]) && out@[i]@ == decode_utf8(done[i]),
        ensures
            pos == s.len(),
            done + dot_segments(s.subrange(pos as int, s.len() as int)) == dot_segments(s),
            out@.len() == done.len(),
            forall|i: int| #![trigger done[i]] 0 <= i < done.len() ==> valid_utf8(done[i]) && out@[i]@ == decode_utf8(done[i]),
        decreases s.len() - pos,
    {
        let ghost rest = s.subrange(pos as int, s.len() as int);
        let d = crate::http::find_from_exec(b, 0x2e, pos);
        proof {
            crate::http::lemma_find_from(s, 0x2e, pos as int);
            lemma_find_from_suffix(s, 0x2e, pos as int, pos as int);
            assert(rest.subrange(0, d - pos) =~= s.subrange(pos as int, d as int));
            lemma_cut_at_ascii(rest, d - pos);
        }
        let ghost before = done;
        let ghost out_before = out@;
        if d > pos {
            let seg = bytes_range(b, pos, d);
            let ghost sv = seg@;
            proof {
                encode_utf8_decode_utf8(decode_utf8(sv));
                decode_utf8_encode_utf8(sv);
            }
            assert(sv == rest.subrange(0, d - pos));
            assert(valid_utf8(sv));
            match string_from_utf8(seg) {
                Some(t) => {
                    assert(t@ == decode_utf8(sv));
                    out.push(t);
                },
                None => {
                    assert(false);
                },
            }
            proof {
                done = done.push(sv);
                assert(out@[out@.len() - 1]@ == decode_utf8(done[done.len() - 1]));
                assert forall|i: int| #![trigger done[i]] 0 <= i < done.len() implies valid_utf8(done[i]) && out@[i]@ == decode_utf8(done[i]) by {
                    if i < done.len() - 1 {
                        assert(done[i] == before[i]);
                        assert(out@[i] == out_before[i]);
                        assert(valid_utf8(before[i]) && out_before[i]@ == decode_utf8(before[i]));
                    } else {
                        assert(done[i] == sv);
                    }
                }
            }
        }
        if d >= b.len() {
            proof {
                assert(dot_segments(rest) == (if d > pos { seq![rest.subrange(0, d - pos)] } else { Seq::<Seq<u8>>::empty() }));
                assert(done + dot_segments(s.subrange(s.len() as int, s.len() as int)) =~= dot_segments(s)) by {
                    assert(s.subrange(s.len() as int, s.len() as int) =~= Seq::<u8>::empty());
                    if d > pos {
                        assert(done =~= before + seq![rest.subrange(0, d - pos)]);
                    } else {
                        assert(done =~= before + Seq::<Seq<u8>>::empty());
                    }
                }
            }
            pos = d;
            break;
        }
        proof {
            let next = s.subrange(d + 1, s.len() as int);
            assert(rest.subrange(d - pos + 1, rest.len() as int) =~= next);
            let tail = rest.subrange(d - pos, rest.len() as int);
            assert(tail.subrange(1, tail.len() as int) =~= next);
            lemma_drop_ascii(tail);
            let head: Seq<Seq<u8>> = if d > pos { seq![rest.subrange(0, d - pos)] } else { Seq::empty() };
            assert(dot_segments(rest) == head + dot_segments(next));
            assert(done =~= before + head);
            assert(done + dot_segments(next) =~= before + (head + dot_segments(next)));
        }
        pos = d + 1;
    }
    proof {
        assert(s.subrange(pos as int, s.len() as int) =~= Seq::<u8>::empty());
        assert(done + dot_segments(Seq::<u8>::empty()) =~= done);
    }
    out
}

// ---- command-line values ----

pub open spec fn is_digit(b: u8) -> bool {
    0x30 <= b <= 0x39
}

pub open spec fn all_digits(s: Seq<u8>, lo: int, hi: int) -> bool {
    forall|i: int| lo <= i < hi ==> #[trigger] is_digit(s[i])
}

/// The decimal value of the digits `s[lo..hi]`.
pub open spec fn digits_value(s: Seq<u8>, lo: int, hi: int) -> int
    decreases hi - lo,
{
    if hi <= lo {
        0
    } else {
        digits_value(s, lo, hi - 1) * 10 + (s[hi - 1] - 0x30)
    }
}

/// What `str::parse::<i64>` accepts: an optional `+` or `-`, then one or
/// more ASCII digits, with a value inside the range of `i64`.
pub open spec fn spec_parse_i64(s: Seq<u8>) -> Option<i64> {
    let start = sign_len(s);
    if start >= s.len() || !all_digits(s, start, s.len() as int) {
        None
    } else {
        let v = digits_value(s, start, s.len() as int);
        let x = if is_negative(s) { -v } else { v };
        if i64::MIN <= x <= i64::MAX {
            Some(x as i64)
        } else {
            None
        }
    }
}

/// The length of a leading sign.
pub open spec fn sign_len(s: Seq<u8>) -> int {
    if s.len() > 0 && (s[0] == 0x2d || s[0] == 0x2b) {
        1
    } else {
        0
    }
}

pub open spec fn is_negative(s: Seq<u8>) -> bool {
    s.len() > 0 && s[0] == 0x2d
}

proof fn lemma_digits_monotone(s: Seq<u8>, lo: int, j: int, k: int)
    requires
        lo <= j <= k <= s.len(),
        all_digits(s, lo, k),
    ensures
        0 <= digits_value(s, lo, j) <= digits_value(s, lo, k),
    decreases k - j,
{
    if j < k {
        lemma_digits_monotone(s, lo, j, k - 1);
        assert(is_digit(s[k - 1]));
    } else {
        lemma_digits_nonneg(s, lo, j);
    }
}

proof fn lemma_digits_nonneg(s: Seq<u8>, lo: int, j: int)
    requires
        lo <= j <= s.len(),
        all_digits(s, lo, j),
    ensures
        0 <= digits_value(s, lo, j),
    decreases j - lo,
{
    if j > lo {
        lemma_digits_nonneg(s, lo, j - 1);
        assert(is_digit(s[j - 1]));
    }
}

/// The integer a byte string spells, as `str::parse::<i64>` reads it.
pub fn parse_i64(s: &[u8]) -> (r: Option<i64>)
    ensures
        r == spec_parse_i64(s@),
{
    let n = s.len();
    let neg = n > 0 && s[0] == 0x2d;
    let start: usize = if n > 0 && (s[0] == 0x2d || s[0] == 0x2b) { 1 } else { 0 };
    if start >= n {
        return None;
    }
    let mut acc: u128 = 0;
    let mut i: usize = start;
    while i < n
        invariant
            start <= i <= n == s@.len(),
            start < n,
            start == sign_len(s@),
            neg == is_negative(s@),
            all_digits(s@, start as int, i as int),
            acc == digits_value(s@, start as int, i as int),
            acc <= 0x8000_0000_0000_0000u128,
        decreases n - i,
    {
        let b = s[i];
        if !(0x30 <= b && b <= 0x39) {
            assert(!is_digit(s@[i as int]));
            assert(!all_digits(s@, start as int, n as int));
            assert(sign_len(s@) == start);
            return None;
        }
        acc = acc * 10 + (b - 0x30) as u128;
        assert(acc == digits_value(s@, start as int, i + 1));
        if acc > 0x8000_0000_0000_0000u128 {
            proof {
                if all_digits(s@, start as int, n as int) {
                    lemma_digits_monotone(s@, start as int, i + 1, n as int);
                    assert(digits_value(s@, start as int, n as int) >= acc);
                }
                assert(sign_len(s@) == start);
            }
            return None;
        }
        i = i + 1;
    }
    if neg {
        if acc == 0x8000_0000_0000_0000u128 {
            Some(i64::MIN)
        } else {
            Some(-(acc as i64))
        }
    } else {
        if acc > 0x7fff_ffff_ffff_ffffu128 {
            None
        } else {
            Some(acc as i64)
        }
    }
}

/// How a value given on the command line is typed, before floating point
/// and TOML fragments are tried.
#[derive(Clone, Copy, Debug, PartialEq, Eq, Structural)]
pub enum ScalarValue {
    Boolean(bool),
    Integer(i64),
    /// Neither `true`, `false` nor an integer.
    Other,
}

pub open spec fn spec_scalar_value(raw: Seq<u8>) -> ScalarValue {
    if raw == "true".spec_bytes() {
        ScalarValue::Boolean(true)
    } else if raw == "false".spec_bytes() {
        ScalarValue::Boolean(false)
    } else {
        match spec_parse_i64(raw) {
            Some(v) => ScalarValue::Integer(v),
            None => ScalarValue::Other,
        }
    }
}

pub fn scalar_value(raw: &str) -> (r: ScalarValue)
    ensures
        r == spec_scalar_value(raw.spec_bytes()),
{
    let b = raw.as_bytes();
    if crate::text::bytes_eq(b, "true".as_bytes()) {
        ScalarValue::Boolean(true)
    } else if crate::text::bytes_eq(b, "false".as_bytes()) {
        ScalarValue::Boolean(false)
    } else {
        match parse_i64(b) {
            Some(v) => ScalarValue::Integer(v),
            None => ScalarValue::Other,
        }
    }
}

/// What a `set` request does to the document.
#[derive(Debug, PartialEq, Eq)]
pub enum SetPlan {
    /// Remove the leaf at the path.
    Remove(Vec<String>),
    /// Write the value at the path, creating tables on the way.
    Write(Vec<String>, ScalarValue),
}

#[derive(Clone, Copy, Debug, PartialEq, Eq, Structural)]
pub enum SetError {
    /// The path has no non-empty key.
    EmptyPath,
}

/// Plans `set --path dotted --value raw`: a zero modifier mask removes the
/// setting (so the default applies); anything else is written.
pub fn plan_set(dotted: &str, raw: &str) -> (r: Result<SetPlan, SetError>)
    ensures
        dot_segments(dotted.spec_bytes()).len() == 0 <==> r == Err::<SetPlan, SetError>(SetError::EmptyPath),
        r matches Ok(SetPlan::Remove(keys)) ==> dotted@ == "scroll.modifier_zoom_mask"@ && raw@ == "0"@,
        r matches Ok(SetPlan::Write(_, v)) ==> v == spec_scalar_value(raw.spec_bytes()) && !(dotted@
            == "scroll.modifier_zoom_mask"@ && raw@ == "0"@),
        r matches Ok(p) ==> ({
            let keys = match p {
                SetPlan::Remove(k) => k,
                SetPlan::Write(k, _) => k,
            };
            &&& keys@.len() == dot_segments(dotted.spec_bytes()).len()
            &&& forall|i: int|
                0 <= i < keys@.len() ==> #[trigger] keys@[i]@ == decode_utf8(dot_segments(dotted.spec_bytes())[i])
        }),
        (dot_segments(dotted.spec_bytes()).len() > 0 && dotted@ == "scroll.modifier_zoom_mask"@ && raw@ == "0"@)
            ==> r is Ok && r->Ok_0 is Remove,
{
    let keys = split_dotted(dotted);
    if keys.len() == 0 {
        return Err(SetError::EmptyPath);
    }
    if crate::text::str_eq(dotted, "scroll.modifier_zoom_mask") && crate::text::str_eq(raw, "0") {
        Ok(SetPlan::Remove(keys))
    } else {
        let v = scalar_value(raw);
        Ok(SetPlan::Write(keys, v))
    }
}

/// A TOML fragment given as a setting's value (an inline table or array):
/// the value of `value = <raw>` as the `toml` crate parses it, `None` where
/// the crate rejects that line.
pub fn parse_fragment(raw: &str) -> (r: Option<TomlValue>)
    ensures
        r == (match toml_parse("value = "@ + raw@) {
            Some(doc) => get_path(doc, seq!["value"@]),
            None => None,
        }),
{
    let source = crate::text::concat_str("value = ", raw);
    match parse_toml(source.as_str()) {
        Some(TomlValue::Table(mut entries)) => {
            let ghost doc = TomlValue::Table(entries);
            let ghost path = seq!["value"@];
            assert(path[0] == "value"@);
            match find_entry(&entries, "value") {
                Some(i) => {
                    let ghost found = entries@[i as int];
                    let entry = entries.remove(i);
                    proof {
                        assert(entry == found);
                        assert(path.drop_first() =~= Seq::<Seq<char>>::empty());
                        assert(get_path(found.value, Seq::<Seq<char>>::empty()) == Some(found.value));
                        assert(get_path(doc, path) == Some(entry.value));
                    }
                    Some(entry.value)
                },
                None => {
                    proof {
                        assert(get_path(doc, seq!["value"@]) is None);
                    }
                    None
                },
            }
        },
        _ => None,
    }
}

// ---- pairing token ----

/// The error of the system random source.
#[verifier::external_type_specification]
#[verifier::external_body]
pub struct ExRandomError(getrandom::Error);

/// Calls `getrandom::fill`: on success the buffer holds bytes from the
/// system's secure random source. Which bytes is not stated (they are random);
/// the buffer keeps its length.
#[verifier::external_body]
fn fill_random(buf: &mut Vec<u8>) -> (r: Result<(), getrandom::Error>)
    ensures
        final(buf)@.len() == old(buf)@.len(),
{
    getrandom::fill(buf.as_mut_slice())
}

/// Calls `getrandom::Error::raw_os_error`: the operating system's error
/// code, where the error came from the system; nothing more is stated.
#[verifier::external_body]
fn random_error_os_code(e: getrandom::Error) -> (r: Option<i32>) {
    e.raw_os_error()
}

/// Lowercase hexadecimal, two digits per byte.
pub open spec fn hex_pairs(bytes: Seq<u8>) -> Seq<u8>
    decreases bytes.len(),
{
    if bytes.len() == 0 {
        Seq::empty()
    } else {
        hex_pairs(bytes.drop_last()).push(crate::text::hex_digit(bytes.last() / 16)).push(
            crate::text::hex_digit(bytes.last() % 16),
        )
    }
}

proof fn lemma_hex_pairs(bytes: Seq<u8>)
    ensures
        hex_pairs(bytes).len() == 2 * bytes.len(),
        all_ascii(hex_pairs(bytes)),
        forall|i: int|
            0 <= i < hex_pairs(bytes).len() ==> {
                let c = #[trigger] hex_pairs(bytes)[i];
                (0x30 <= c <= 0x39) || (0x61 <= c <= 0x66)
            },
    decreases bytes.len(),
{
    if bytes.len() > 0 {
        lemma_hex_pairs(bytes.drop_last());
    }
}

/// The bytes in lowercase hexadecimal.
pub fn hex_lower(bytes: &[u8]) -> (r: String)
    ensures
        r@ == ascii_chars(hex_pairs(bytes@)),
        r@.len() == 2 * bytes@.len(),
{
    let mut out: Vec<u8> = Vec::new();
    let mut i: usize = 0;
    while i < bytes.len()
        invariant
            i <= bytes@.len(),
            out@ == hex_pairs(bytes@.take(i as int)),
        decreases bytes@.len() - i,
    {
        let b = bytes[i];
        let hi = b / 16;
        let lo = b % 16;
        out.push(if hi < 10 { 48 + hi } else { 87 + hi });
        out.push(if lo < 10 { 48 + lo } else { 87 + lo });
        proof {
            assert(bytes@.take(i + 1).drop_last() =~= bytes@.take(i as int));
            assert(bytes@.take(i + 1).last() == b);
        }
        i = i + 1;
    }
    assert(bytes@.take(bytes@.len() as int) =~= bytes@);
    proof {
        lemma_hex_pairs(bytes@);
    }
    ascii_string(out)
}

/// Bytes of randomness in a pairing token.
pub const TOKEN_BYTES: usize = 32;

#[derive(Clone, Copy, Debug, PartialEq, Eq, Structural)]
pub enum TokenError {
    /// The secure random source failed, with the system's code where it gave one.
    Random { os_code: Option<i32> },
}

/// A fresh LAN pairing token: 32 random bytes in lowercase hexadecimal.
pub fn generate_pairing_token() -> (r: Result<String, TokenError>)
    ensures
        r matches Ok(t) ==> exists|b: Seq<u8>| b.len() == TOKEN_BYTES && t@ == ascii_chars(
            #[trigger] hex_pairs(b),
        ),
{
    let mut bytes: Vec<u8> = vec![0u8; TOKEN_BYTES];
    match fill_random(&mut bytes) {
        Ok(()) => {
            let t = hex_lower(bytes.as_slice());
            assert(t@ == ascii_chars(hex_pairs(bytes@)));
            Ok(t)
        },
        Err(e) => Err(TokenError::Random { os_code: random_error_os_code(e) }),
    }
}

/// Whether a token is configured: present and not empty.
pub fn token_configured(token: Option<&str>) -> (r: bool)
    ensures
        r == (token matches Some(t) && t@.len() > 0),
{
    match token {
        Some(t) => {
            proof {
                crate::text::lemma_text_ascii_ends(t@, 0x2f);
            }
            t.as_bytes().len() > 0
        },
        None => false,
    }
}

/// The keys of `[net] token`.
pub open spec fn token_keys() -> Seq<Seq<char>> {
    seq!["net"@, "token"@]
}

/// The document already holds a non-empty pairing token.
pub open spec fn has_token(root: TomlValue) -> bool {
    get_path(root, token_keys()) matches Some(TomlValue::String(t)) && t@.len() > 0
}

/// Makes sure the document holds a pairing token: where `[net] token` is a
/// non-empty string, nothing changes and the answer is `Ok(false)`;
/// otherwise a fresh token is written there (`Ok(true)`), leaving every
/// other setting as it was. When the random source fails, nothing changes.
pub fn ensure_token(root: &mut TomlValue) -> (r: Result<bool, TokenError>)
    ensures
        has_token(*old(root)) ==> r == Ok::<bool, TokenError>(false) && *final(root) == *old(root),
        !has_token(*old(root)) ==> match r {
            Ok(created) => {
                &&& created
                &&& get_path(*final(root), token_keys()) matches Some(TomlValue::String(t)) && exists|b: Seq<u8>|
                    b.len() == TOKEN_BYTES && t@ == ascii_chars(#[trigger] hex_pairs(b))
                &&& forall|q: Seq<Seq<char>>|
                    diverge(token_keys(), q) ==> #[trigger] get_path(*final(root), q) == get_path(*old(root), q)
            },
            Err(_) => *final(root) == *old(root),
        },
{
    let path: Vec<String> = vec!["net".to_owned(), "token".to_owned()];
    proof {
        reveal_strlit("net");
        reveal_strlit("token");
        assert(keys(&path) =~= token_keys());
    }
    let configured = match get_value(root, &path) {
        Some(TomlValue::String(t)) => token_configured(Some(t.as_str())),
        _ => false,
    };
    if configured {
        return Ok(false);
    }
    let token = generate_pairing_token()?;
    set_value(root, &path, TomlValue::String(token));
    Ok(true)
}

} // verus!
