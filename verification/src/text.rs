//! Small verified helpers over strings and byte strings.
use vstd::prelude::*;
use vstd::utf8::*;

verus! {

broadcast use vstd::string::group_string_axioms;

/// Byte-wise equality of two byte strings.
pub fn bytes_eq(a: &[u8], b: &[u8]) -> (r: bool)
    ensures
        r == (a@ == b@),
{
    if a.len() != b.len() {
        return false;
    }
    let mut i: usize = 0;
    while i < a.len()
        invariant
            a@.len() == b@.len(),
            i <= a@.len(),
            forall|j: int| 0 <= j < i ==> a@[j] == b@[j],
        decreases a@.len() - i,
    {
        if a[i] != b[i] {
            return false;
        }
        i = i + 1;
    }
    assert(a@ =~= b@);
    true
}

/// The UTF-8 encoding determines the characters.
pub proof fn lemma_encoding_injective(a: Seq<char>, b: Seq<char>)
    ensures
        (encode_utf8(a) == encode_utf8(b)) == (a == b),
{
    encode_utf8_decode_utf8(a);
    encode_utf8_decode_utf8(b);
}

/// String equality, decided on the UTF-8 bytes.
pub fn str_eq(a: &str, b: &str) -> (r: bool)
    ensures
        r == (a@ == b@),
{
    let r = bytes_eq(a.as_bytes(), b.as_bytes());
    proof {
        lemma_encoding_injective(a@, b@);
    }
    r
}

/// Whether `s` starts with `prefix` (as byte strings).
pub fn bytes_starts_with(s: &[u8], prefix: &[u8]) -> (r: bool)
    ensures
        r == (prefix@.len() <= s@.len() && s@.subrange(0, prefix@.len() as int) == prefix@),
{
    if prefix.len() > s.len() {
        return false;
    }
    let mut i: usize = 0;
    while i < prefix.len()
        invariant
            prefix@.len() <= s@.len(),
            i <= prefix@.len(),
            forall|j: int| 0 <= j < i ==> s@[j] == prefix@[j],
        decreases prefix@.len() - i,
    {
        if s[i] != prefix[i] {
            assert(s@.subrange(0, prefix@.len() as int)[i as int] != prefix@[i as int]);
            return false;
        }
        i = i + 1;
    }
    assert(s@.subrange(0, prefix@.len() as int) =~= prefix@);
    true
}

/// Copy of a byte range.
pub fn bytes_range(s: &[u8], start: usize, end: usize) -> (r: Vec<u8>)
    requires
        start <= end <= s@.len(),
    ensures
        r@ == s@.subrange(start as int, end as int),
{
    let mut out: Vec<u8> = Vec::new();
    let mut i = start;
    while i < end
        invariant
            start <= i <= end <= s@.len(),
            out@ == s@.subrange(start as int, i as int),
        decreases end - i,
    {
        out.push(s[i]);
        assert(out@ =~= s@.subrange(start as int, i + 1));
        i = i + 1;
    }
    out
}

/// The characters that ASCII bytes stand for.
pub open spec fn ascii_chars(bytes: Seq<u8>) -> Seq<char> {
    Seq::new(bytes.len(), |i: int| bytes[i] as char)
}

pub open spec fn all_ascii(bytes: Seq<u8>) -> bool {
    forall|i: int| 0 <= i < bytes.len() ==> bytes[i] < 128
}

/// ASCII bytes are their own UTF-8 encoding.
pub proof fn lemma_ascii_valid_utf8(bytes: Seq<u8>)
    requires
        all_ascii(bytes),
    ensures
        valid_utf8(bytes),
        decode_utf8(bytes) == ascii_chars(bytes),
{
    let c = ascii_chars(bytes);
    assert(is_ascii_chars(c)) by {
        assert forall|i: int| 0 <= i < c.len() implies (c[i] as u32) < 128 by {
            assert(c[i] == bytes[i] as char);
        }
    }
    is_ascii_chars_encode_utf8(c);
    assert(encode_utf8(c) =~= bytes);
    encode_utf8_valid_utf8(c);
    encode_utf8_decode_utf8(c);
}

/// `String::from_utf8`, with the standard library's own validation.
#[verifier::external_body]
pub(crate) fn string_from_utf8(bytes: Vec<u8>) -> (r: Option<String>)
    ensures
        r is Some <==> valid_utf8(bytes@),
        r matches Some(s) ==> s@ == decode_utf8(bytes@),
{
    match String::from_utf8(bytes) {
        Ok(s) => Some(s),
        Err(_) => None,
    }
}

/// A `String` holding the given ASCII bytes.
pub fn ascii_string(bytes: Vec<u8>) -> (s: String)
    requires
        all_ascii(bytes@),
    ensures
        s@ == ascii_chars(bytes@),
{
    proof {
        lemma_ascii_valid_utf8(bytes@);
    }
    match string_from_utf8(bytes) {
        Some(s) => s,
        None => {
            assert(false);
            String::new()
        },
    }
}

/// UTF-8 encoding distributes over concatenation.
pub proof fn lemma_encode_concat(a: Seq<char>, b: Seq<char>)
    ensures
        encode_utf8(a + b) == encode_utf8(a) + encode_utf8(b),
    decreases a.len(),
{
    if a.len() == 0 {
        assert(a + b =~= b);
        assert(encode_utf8(a) + encode_utf8(b) =~= encode_utf8(b));
    } else {
        assert((a + b).drop_first() =~= a.drop_first() + b);
        assert((a + b)[0] == a[0]);
        lemma_encode_concat(a.drop_first(), b);
        assert(encode_utf8(a + b) =~= encode_scalar(a[0] as u32) + (encode_utf8(a.drop_first())
            + encode_utf8(b)));
    }
}

/// The two strings one after the other.
pub fn concat_str(a: &str, b: &str) -> (r: String)
    ensures
        r@ == a@ + b@,
{
    let ab = a.as_bytes();
    let bb = b.as_bytes();
    let mut bytes: Vec<u8> = Vec::new();
    let mut i: usize = 0;
    while i < ab.len()
        invariant
            i <= ab@.len(),
            bytes@ == ab@.subrange(0, i as int),
        decreases ab@.len() - i,
    {
        bytes.push(ab[i]);
        assert(bytes@ =~= ab@.subrange(0, i + 1));
        i = i + 1;
    }
    let mut j: usize = 0;
    while j < bb.len()
        invariant
            j <= bb@.len(),
            bytes@ == ab@ + bb@.subrange(0, j as int),
        decreases bb@.len() - j,
    {
        bytes.push(bb[j]);
        assert(bytes@ =~= ab@ + bb@.subrange(0, j + 1));
        j = j + 1;
    }
    assert(bytes@ =~= ab@ + bb@);
    proof {
        lemma_encode_concat(a@, b@);
        encode_utf8_valid_utf8(a@ + b@);
        encode_utf8_decode_utf8(a@ + b@);
    }
    match string_from_utf8(bytes) {
        Some(s) => s,
        None => {
            assert(false);
            String::new()
        },
    }
}

/// Decimal digits of `n`, most significant first, as ASCII bytes.
pub open spec fn decimal_bytes(n: nat) -> Seq<u8>
    decreases n,
{
    if n < 10 {
        seq![(48 + n) as u8]
    } else {
        decimal_bytes(n / 10).push((48 + n % 10) as u8)
    }
}

/// Lowercase hexadecimal digits of `n`, most significant first, as ASCII bytes.
pub open spec fn hex_bytes(n: nat) -> Seq<u8>
    decreases n,
{
    if n < 16 {
        seq![hex_digit((n % 16) as u8)]
    } else {
        hex_bytes(n / 16).push(hex_digit((n % 16) as u8))
    }
}

pub open spec fn hex_digit(d: u8) -> u8 {
    if d < 10 { (48 + d) as u8 } else { (87 + d) as u8 }
}

proof fn lemma_decimal_ascii(n: nat)
    ensures
        all_ascii(decimal_bytes(n)),
    decreases n,
{
    if n >= 10 {
        lemma_decimal_ascii(n / 10);
    }
}

proof fn lemma_hex_ascii(n: nat)
    ensures
        all_ascii(hex_bytes(n)),
    decreases n,
{
    if n >= 16 {
        lemma_hex_ascii(n / 16);
    }
}

fn push_decimal(n: u64, out: &mut Vec<u8>)
    ensures
        final(out)@ == old(out)@ + decimal_bytes(n as nat),
    decreases n,
{
    if n >= 10 {
        push_decimal(n / 10, out);
    }
    let d: u8 = (n % 10) as u8;
    out.push(48 + d);
    assert(final(out)@ =~= old(out)@ + decimal_bytes(n as nat)) by {
        if n >= 10 {
            assert(decimal_bytes(n as nat) == decimal_bytes((n / 10) as nat).push((48 + n % 10) as u8));
        }
    }
}

fn push_hex(n: u64, out: &mut Vec<u8>)
    ensures
        final(out)@ == old(out)@ + hex_bytes(n as nat),
    decreases n,
{
    if n >= 16 {
        push_hex(n / 16, out);
    }
    let d: u8 = (n % 16) as u8;
    let c: u8 = if d < 10 { 48 + d } else { 87 + d };
    out.push(c);
    assert(final(out)@ =~= old(out)@ + hex_bytes(n as nat)) by {
        if n >= 16 {
            assert(hex_bytes(n as nat) == hex_bytes((n / 16) as nat).push(hex_digit((n % 16) as u8)));
        }
    }
}

/// `n` in decimal.
pub fn u64_decimal(n: u64) -> (r: String)
    ensures
        r@ == ascii_chars(decimal_bytes(n as nat)),
{
    let mut out: Vec<u8> = Vec::new();
    push_decimal(n, &mut out);
    assert(out@ =~= decimal_bytes(n as nat));
    proof {
        lemma_decimal_ascii(n as nat);
    }
    ascii_string(out)
}

/// The decimal text of a signed number: a minus sign before the magnitude.
pub open spec fn signed_decimal_bytes(n: int) -> Seq<u8> {
    if n < 0 {
        seq![45u8] + decimal_bytes((-n) as nat)
    } else {
        decimal_bytes(n as nat)
    }
}

/// `n` in decimal, with a leading `-` when negative.
pub fn i64_decimal(n: i64) -> (r: String)
    ensures
        r@ == ascii_chars(signed_decimal_bytes(n as int)),
{
    let mut out: Vec<u8> = Vec::new();
    let magnitude: u64 = if n < 0 {
        out.push(45);
        if n == i64::MIN { 0x8000_0000_0000_0000u64 } else { (-n) as u64 }
    } else {
        n as u64
    };
    push_decimal(magnitude, &mut out);
    assert(out@ =~= signed_decimal_bytes(n as int));
    proof {
        lemma_decimal_ascii(magnitude as nat);
    }
    ascii_string(out)
}

/// `n` in lowercase hexadecimal, without a prefix.
pub fn u64_hex(n: u64) -> (r: String)
    ensures
        r@ == ascii_chars(hex_bytes(n as nat)),
{
    let mut out: Vec<u8> = Vec::new();
    push_hex(n, &mut out);
    assert(out@ =~= hex_bytes(n as nat));
    proof {
        lemma_hex_ascii(n as nat);
    }
    ascii_string(out)
}

/// A set of strings, such as dotted setting paths. Only membership is ever
/// asked of it, so it is a vector that holds no string twice (its type
/// invariant); std's sets keyed by `String` give Verus no membership facts.
#[derive(Debug)]
pub struct PathSet {
    paths: Vec<String>,
}

impl View for PathSet {
    type V = Set<Seq<char>>;

    closed spec fn view(&self) -> Set<Seq<char>> {
        Set::new(|p: Seq<char>| exists|i: int| 0 <= i < self.paths@.len() && self.paths@[i]@ == p)
    }
}

impl PathSet {
    /// No string is held twice.
    #[verifier::type_invariant]
    closed spec fn distinct(self) -> bool {
        forall|i: int, j: int|
            0 <= i < j < self.paths@.len() ==> (#[trigger] self.paths@[i])@ != (
            #[trigger] self.paths@[j])@
    }

    pub fn new() -> (r: Self)
        ensures
            r@ == Set::<Seq<char>>::empty(),
    {
        let r = PathSet { paths: Vec::new() };
        assert(r@ =~= Set::<Seq<char>>::empty());
        r
    }

    pub fn contains(&self, path: &str) -> (r: bool)
        ensures
            r == self@.contains(path@),
    {
        let mut i: usize = 0;
        while i < self.paths.len()
            invariant
                i <= self.paths@.len(),
                forall|j: int| 0 <= j < i ==> self.paths@[j]@ != path@,
            decreases self.paths@.len() - i,
        {
            if str_eq(self.paths[i].as_str(), path) {
                return true;
            }
            i = i + 1;
        }
        false
    }

    pub fn insert(&mut self, path: String)
        ensures
            final(self)@ == old(self)@.insert(path@),
    {
        proof {
            use_type_invariant(&*self);
        }
        let ghost p = path@;
        if !self.contains(path.as_str()) {
            let ghost before = self.paths@;
            let mut v: Vec<String> = Vec::new();
            std::mem::swap(&mut v, &mut self.paths);
            v.push(path);
            assert forall|i: int, j: int| 0 <= i < j < v@.len() implies (#[trigger] v@[i])@ != (
            #[trigger] v@[j])@ by {
                assert(v@[i] == before[i]);
                if j < before.len() {
                    assert(v@[j] == before[j]);
                }
            }
            self.paths = v;
        }
        assert(self@ =~= old(self)@.insert(p)) by {
            assert forall|q: Seq<char>| self@.contains(q) implies old(self)@.insert(p).contains(q) by {
                let i = choose|i: int| 0 <= i < self.paths@.len() && self.paths@[i]@ == q;
                if i < old(self).paths@.len() {
                    assert(old(self).paths@[i]@ == q);
                }
            }
            assert forall|q: Seq<char>| old(self)@.insert(p).contains(q) implies self@.contains(q) by {
                if q == p {
                    if !old(self)@.contains(p) {
                        assert(self.paths@[self.paths@.len() - 1]@ == p);
                    }
                } else {
                    let i = choose|i: int| 0 <= i < old(self).paths@.len() && old(self).paths@[i]@ == q;
                    assert(self.paths@[i]@ == q);
                }
            }
        }
    }

    /// The number of strings in the set.
    pub fn len(&self) -> (r: usize)
        ensures
            r == self@.len(),
            self@.finite(),
    {
        proof {
            use_type_invariant(self);
            lemma_distinct_views_set(self.paths@);
        }
        self.paths.len()
    }

    pub fn is_empty(&self) -> (r: bool)
        ensures
            r == (self@ == Set::<Seq<char>>::empty()),
    {
        proof {
            if self.paths@.len() > 0 {
                assert(self@.contains(self.paths@[0]@));
            }
        }
        let r = self.paths.len() == 0;
        assert(r ==> self@ =~= Set::<Seq<char>>::empty());
        r
    }

    pub fn clear(&mut self)
        ensures
            final(self)@ == Set::<Seq<char>>::empty(),
    {
        self.paths = Vec::new();
        assert(self@ =~= Set::<Seq<char>>::empty());
    }
}

impl Clone for PathSet {
    fn clone(&self) -> (r: Self)
        ensures
            r@ == self@,
    {
        proof {
            use_type_invariant(self);
        }
        let mut v: Vec<String> = Vec::new();
        let mut i: usize = 0;
        while i < self.paths.len()
            invariant
                i <= self.paths@.len(),
                v@.len() == i,
                forall|j: int| 0 <= j < i ==> (#[trigger] v@[j])@ == self.paths@[j]@,
            decreases self.paths@.len() - i,
        {
            v.push(self.paths[i].clone());
            i = i + 1;
        }
        let r = PathSet { paths: v };
        assert(r@ =~= self@) by {
            assert forall|q: Seq<char>| r@.contains(q) implies self@.contains(q) by {
                let j = choose|j: int| 0 <= j < v@.len() && v@[j]@ == q;
                assert(self.paths@[j]@ == q);
            }
            assert forall|q: Seq<char>| self@.contains(q) implies r@.contains(q) by {
                let j = choose|j: int| 0 <= j < self.paths@.len() && self.paths@[j]@ == q;
                assert(v@[j]@ == q);
            }
        }
        r
    }
}

/// The set of views of strings that are pairwise distinct has as many
/// members as there are strings.
proof fn lemma_distinct_views_set(s: Seq<String>)
    requires
        forall|i: int, j: int| 0 <= i < j < s.len() ==> (#[trigger] s[i])@ != (#[trigger] s[j])@,
    ensures
        Set::new(|p: Seq<char>| exists|i: int| 0 <= i < s.len() && s[i]@ == p).finite(),
        Set::new(|p: Seq<char>| exists|i: int| 0 <= i < s.len() && s[i]@ == p).len() == s.len(),
    decreases s.len(),
{
    let set = Set::new(|p: Seq<char>| exists|i: int| 0 <= i < s.len() && s[i]@ == p);
    if s.len() == 0 {
        assert(set =~= Set::<Seq<char>>::empty());
    } else {
        let init = s.drop_last();
        let iset = Set::new(|p: Seq<char>| exists|i: int| 0 <= i < init.len() && init[i]@ == p);
        assert forall|i: int, j: int| 0 <= i < j < init.len() implies (#[trigger] init[i])@ != (
        #[trigger] init[j])@ by {
            assert(init[i] == s[i] && init[j] == s[j]);
        }
        lemma_distinct_views_set(init);
        let last = s[s.len() - 1]@;
        assert(set =~= iset.insert(last)) by {
            assert forall|p: Seq<char>| set.contains(p) implies iset.insert(last).contains(p) by {
                let i = choose|i: int| 0 <= i < s.len() && s[i]@ == p;
                if i < s.len() - 1 {
                    assert(init[i] == s[i]);
                }
            }
            assert forall|p: Seq<char>| iset.insert(last).contains(p) implies set.contains(p) by {
                if p != last {
                    let i = choose|i: int| 0 <= i < init.len() && init[i]@ == p;
                    assert(s[i] == init[i]);
                }
            }
        }
        assert(!iset.contains(last)) by {
            if iset.contains(last) {
                let i = choose|i: int| 0 <= i < init.len() && init[i]@ == last;
                assert(init[i] == s[i]);
            }
        }
    }
}

/// An ASCII character is encoded as that one byte, and every other
/// character's first and last bytes are outside ASCII.
pub proof fn lemma_scalar_ascii_ends(c: char, b: u8)
    requires
        b < 0x80,
    ensures
        encode_scalar(c as u32).len() >= 1,
        (encode_scalar(c as u32)[0] == b) == (c as u32 == b as u32),
        (encode_scalar(c as u32).last() == b) == (c as u32 == b as u32),
        c as u32 == b as u32 ==> encode_scalar(c as u32) == seq![b],
{
    let v = c as u32;
    char_is_scalar(c);
    if has_width_1_encoding(v) {
        assert(((v & 0x7F) as u8 == b) == (v == b as u32)) by (bit_vector)
            requires
                v <= 0x7f,
                b < 0x80,
        ;
    } else if has_width_2_encoding(v) {
        assert((0xC0u8 | ((v >> 6u32) & 0x1F) as u8) != b) by (bit_vector) requires b < 0x80;
        assert((0x80u8 | (v & 0x3F) as u8) != b) by (bit_vector) requires b < 0x80;
    } else if has_width_3_encoding(v) {
        assert((0xE0u8 | ((v >> 12u32) & 0x0F) as u8) != b) by (bit_vector) requires b < 0x80;
        assert((0x80u8 | (v & 0x3F) as u8) != b) by (bit_vector) requires b < 0x80;
    } else {
        assert((0xF0u8 | ((v >> 18u32) & 0x7) as u8) != b) by (bit_vector) requires b < 0x80;
        assert((0x80u8 | (v & 0x3F) as u8) != b) by (bit_vector) requires b < 0x80;
    }
}

/// The first byte of a text is an ASCII byte `b` exactly when its first
/// character is that character; likewise for the last.
pub proof fn lemma_text_ascii_ends(s: Seq<char>, b: u8)
    requires
        b < 0x80,
    ensures
        (encode_utf8(s).len() == 0) == (s.len() == 0),
        (encode_utf8(s).len() > 0 && encode_utf8(s)[0] == b) == (s.len() > 0 && s[0] as u32 == b as u32),
        (encode_utf8(s).len() > 0 && encode_utf8(s).last() == b) == (s.len() > 0 && s.last() as u32
            == b as u32),
{
    if s.len() > 0 {
        lemma_scalar_ascii_ends(s[0], b);
        lemma_scalar_ascii_ends(s.last(), b);
        let init = s.drop_last();
        let tail = seq![s.last()];
        assert(init + tail =~= s);
        lemma_encode_concat(init, tail);
        assert(tail.drop_first() =~= Seq::<char>::empty());
        assert(encode_utf8(tail) =~= encode_scalar(s.last() as u32) + encode_utf8(Seq::<char>::empty()));
        assert(encode_utf8(tail) =~= encode_scalar(s.last() as u32));
        assert(encode_utf8(s).last() == encode_scalar(s.last() as u32).last());
    }
}

} // verus!
