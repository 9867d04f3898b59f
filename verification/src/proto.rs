//! ATP1 wire format: one packet carries one touch frame.
//!
//! Layout (little-endian):
//!
//! ```text
//! offset  size  field
//! 0       4     magic "ATP1"
//! 4       1     version  (= 1)
//! 5       1     flags    bit0 = integrated button; bits 1..7 reserved, must be 0
//! 6       1     contact count n   (0..=MAX_CONTACTS)
//! 7       4     seq      u32
//! 11      4     scan_time u32 (100 µs ticks, mod 2^32)
//! 15      n*10  contact records:
//!                 +0  id    u8
//!                 +1  flags bit0 tip, bit1 confidence; bits 2..7 reserved
//!                 +2  x     f32 bit pattern (millimeters)
//!                 +6  y     f32 bit pattern (millimeters)
//! ```
//!
//! Coordinates travel as their IEEE-754 bit patterns; decoding rejects the
//! patterns whose exponent field is all ones (infinities and NaNs).
use crate::text::{ascii_chars, concat_str, decimal_bytes, u64_decimal};
use vstd::prelude::*;

verus! {

/// Maximum contacts a packet may carry.
pub const MAX_CONTACTS: usize = 10;

pub const HEADER_LEN: usize = 15;

pub const CONTACT_LEN: usize = 10;

pub const VERSION: u8 = 1;

pub const FLAG_BUTTON: u8 = 0x01;

pub const CONTACT_FLAG_TIP: u8 = 0x01;

pub const CONTACT_FLAG_CONFIDENCE: u8 = 0x02;

/// One contact record. `x_bits`/`y_bits` are the IEEE-754 single-precision
/// bit patterns of the coordinates in millimeters.
#[derive(Clone, Copy, Debug, PartialEq, Eq)]
pub struct Contact {
    pub id: u8,
    pub x_bits: u32,
    pub y_bits: u32,
    pub tip: bool,
    pub confidence: bool,
}

#[derive(Clone, Debug, PartialEq, Eq)]
pub struct Frame {
    pub seq: u32,
    /// Sender's monotonic clock in 100 µs ticks, mod 2^32.
    pub scan_time_100us: u32,
    pub button: bool,
    pub contacts: Vec<Contact>,
}

/// Mathematical model of a frame.
#[verifier::ext_equal]
pub struct FrameModel {
    pub seq: u32,
    pub scan_time_100us: u32,
    pub button: bool,
    pub contacts: Seq<Contact>,
}

impl View for Frame {
    type V = FrameModel;

    open spec fn view(&self) -> FrameModel {
        FrameModel {
            seq: self.seq,
            scan_time_100us: self.scan_time_100us,
            button: self.button,
            contacts: self.contacts@,
        }
    }
}

#[derive(Clone, Copy, Debug, PartialEq, Eq, Structural)]
pub enum DecodeError {
    TooShort,
    BadMagic,
    BadVersion,
    UnknownFlag { at: usize },
    BadContactCount(usize),
    NonFiniteCoordinate { id: u8 },
}

impl DecodeError {
    /// The error in words.
    pub open spec fn message(self) -> Seq<char> {
        match self {
            DecodeError::TooShort => "packet shorter than its declared frame"@,
            DecodeError::BadMagic => "bad magic (expected \"ATP1\")"@,
            DecodeError::BadVersion => "unsupported protocol version"@,
            DecodeError::UnknownFlag { at } => "unknown/reserved flag bits set at byte "@ + ascii_chars(
                decimal_bytes(at as nat),
            ),
            DecodeError::BadContactCount(n) => "contact count "@ + ascii_chars(decimal_bytes(n as nat))
                + " out of range"@,
            DecodeError::NonFiniteCoordinate { id } => "non-finite coordinate for contact id "@ + ascii_chars(
                decimal_bytes(id as nat),
            ),
        }
    }

    pub fn describe(&self) -> (r: String)
        ensures
            r@ == self.message(),
    {
        match *self {
            DecodeError::TooShort => "packet shorter than its declared frame".to_owned(),
            DecodeError::BadMagic => "bad magic (expected \"ATP1\")".to_owned(),
            DecodeError::BadVersion => "unsupported protocol version".to_owned(),
            DecodeError::UnknownFlag { at } => {
                let digits = u64_decimal(at as u64);
                concat_str("unknown/reserved flag bits set at byte ", digits.as_str())
            },
            DecodeError::BadContactCount(n) => {
                let digits = u64_decimal(n as u64);
                let head = concat_str("contact count ", digits.as_str());
                concat_str(head.as_str(), " out of range")
            },
            DecodeError::NonFiniteCoordinate { id } => {
                let digits = u64_decimal(id as u64);
                concat_str("non-finite coordinate for contact id ", digits.as_str())
            },
        }
    }
}

// ---- byte-level specification ----

/// Byte `k` (0..4) of the little-endian encoding of `v`.
pub open spec fn u32_le_byte(v: u32, k: int) -> u8 {
    if k == 0 {
        (v & 0xff) as u8
    } else if k == 1 {
        ((v >> 8u32) & 0xff) as u8
    } else if k == 2 {
        ((v >> 16u32) & 0xff) as u8
    } else {
        ((v >> 24u32) & 0xff) as u8
    }
}

/// The `u32` whose little-endian encoding is `b0 b1 b2 b3`.
pub open spec fn u32_from_le(b0: u8, b1: u8, b2: u8, b3: u8) -> u32 {
    (b0 as u32) | ((b1 as u32) << 8u32) | ((b2 as u32) << 16u32) | ((b3 as u32) << 24u32)
}

/// A single-precision bit pattern is finite unless its exponent field is all ones.
pub open spec fn f32_bits_finite(bits: u32) -> bool {
    (bits >> 23u32) & 0xff != 0xff
}

pub open spec fn magic_byte(k: int) -> u8 {
    if k == 0 {
        0x41u8
    } else if k == 1 {
        0x54u8
    } else if k == 2 {
        0x50u8
    } else {
        0x31u8
    }
}

pub open spec fn contact_flags(c: Contact) -> u8 {
    (if c.tip { 1u8 } else { 0u8 }) | (if c.confidence { 2u8 } else { 0u8 })
}

/// Byte `k` (0..10) of a contact record.
pub open spec fn contact_byte(c: Contact, k: int) -> u8 {
    if k == 0 {
        c.id
    } else if k == 1 {
        contact_flags(c)
    } else if k < 6 {
        u32_le_byte(c.x_bits, k - 2)
    } else {
        u32_le_byte(c.y_bits, k - 6)
    }
}

/// Byte `j` (0..15) of the header of `f`.
pub open spec fn header_byte(f: FrameModel, j: int) -> u8 {
    if j < 4 {
        magic_byte(j)
    } else if j == 4 {
        VERSION
    } else if j == 5 {
        if f.button { FLAG_BUTTON } else { 0u8 }
    } else if j == 6 {
        f.contacts.len() as u8
    } else if j < 11 {
        u32_le_byte(f.seq, j - 7)
    } else {
        u32_le_byte(f.scan_time_100us, j - 11)
    }
}

pub open spec fn encoded_len(n: int) -> int {
    HEADER_LEN + n * CONTACT_LEN
}

/// Byte `j` of the encoding of `f`.
pub open spec fn frame_byte(f: FrameModel, j: int) -> u8 {
    if j < HEADER_LEN {
        header_byte(f, j)
    } else {
        contact_byte(f.contacts[(j - HEADER_LEN) / CONTACT_LEN as int], (j - HEADER_LEN) % CONTACT_LEN as int)
    }
}

/// The encoding of a frame.
pub open spec fn spec_encode(f: FrameModel) -> Seq<u8> {
    Seq::new(encoded_len(f.contacts.len() as int) as nat, |j: int| frame_byte(f, j))
}

/// Offset of contact record `i`.
pub open spec fn record_offset(i: int) -> int {
    HEADER_LEN + i * CONTACT_LEN
}

pub open spec fn record_x(b: Seq<u8>, i: int) -> u32 {
    let o = record_offset(i);
    u32_from_le(b[o + 2], b[o + 3], b[o + 4], b[o + 5])
}

pub open spec fn record_y(b: Seq<u8>, i: int) -> u32 {
    let o = record_offset(i);
    u32_from_le(b[o + 6], b[o + 7], b[o + 8], b[o + 9])
}

/// The contact that record `i` of `b` describes (when it is well formed).
pub open spec fn record_contact(b: Seq<u8>, i: int) -> Contact {
    let o = record_offset(i);
    Contact {
        id: b[o],
        x_bits: record_x(b, i),
        y_bits: record_y(b, i),
        tip: b[o + 1] & CONTACT_FLAG_TIP != 0,
        confidence: b[o + 1] & CONTACT_FLAG_CONFIDENCE != 0,
    }
}

/// The error record `i` of `b` carries, checked in the order the decoder checks.
pub open spec fn record_error(b: Seq<u8>, i: int) -> Option<DecodeError> {
    let o = record_offset(i);
    if b[o + 1] & 0xfcu8 != 0 {
        Some(DecodeError::UnknownFlag { at: (o + 1) as usize })
    } else if !f32_bits_finite(record_x(b, i)) || !f32_bits_finite(record_y(b, i)) {
        Some(DecodeError::NonFiniteCoordinate { id: b[o] })
    } else {
        None
    }
}

/// Decoding of the first `n` records: the first faulty record decides the error.
pub open spec fn spec_decode_contacts(b: Seq<u8>, n: nat) -> Result<Seq<Contact>, DecodeError>
    decreases n,
{
    if n == 0 {
        Ok(Seq::empty())
    } else {
        match spec_decode_contacts(b, (n - 1) as nat) {
            Err(e) => Err(e),
            Ok(cs) => match record_error(b, n - 1) {
                Some(e) => Err(e),
                None => Ok(cs.push(record_contact(b, n - 1))),
            },
        }
    }
}

pub open spec fn has_magic(b: Seq<u8>) -> bool {
    b[0] == magic_byte(0) && b[1] == magic_byte(1) && b[2] == magic_byte(2) && b[3] == magic_byte(3)
}

/// The strict ATP1 decoding of `b`.
pub open spec fn spec_decode(b: Seq<u8>) -> Result<FrameModel, DecodeError> {
    if b.len() < HEADER_LEN {
        Err(DecodeError::TooShort)
    } else if !has_magic(b) {
        Err(DecodeError::BadMagic)
    } else if b[4] != VERSION {
        Err(DecodeError::BadVersion)
    } else if b[5] & 0xfeu8 != 0 {
        Err(DecodeError::UnknownFlag { at: 5 })
    } else if b[6] > MAX_CONTACTS {
        Err(DecodeError::BadContactCount(b[6] as usize))
    } else if b.len() < encoded_len(b[6] as int) {
        Err(DecodeError::TooShort)
    } else if b.len() > encoded_len(b[6] as int) {
        Err(DecodeError::UnknownFlag { at: encoded_len(b[6] as int) as usize })
    } else {
        match spec_decode_contacts(b, b[6] as nat) {
            Err(e) => Err(e),
            Ok(cs) => Ok(
                FrameModel {
                    seq: u32_from_le(b[7], b[8], b[9], b[10]),
                    scan_time_100us: u32_from_le(b[11], b[12], b[13], b[14]),
                    button: b[5] & FLAG_BUTTON != 0,
                    contacts: cs,
                },
            ),
        }
    }
}

/// A frame is encodable when it fits the contact limit.
pub open spec fn encodable(f: FrameModel) -> bool {
    f.contacts.len() <= MAX_CONTACTS
}

/// Every coordinate of the frame is a finite bit pattern.
pub open spec fn all_finite(f: FrameModel) -> bool {
    forall|i: int|
        0 <= i < f.contacts.len() ==> f32_bits_finite(#[trigger] f.contacts[i].x_bits)
            && f32_bits_finite(f.contacts[i].y_bits)
}

// ---- bit-level lemmas ----

proof fn lemma_u32_le_roundtrip(v: u32)
    ensures
        u32_from_le(u32_le_byte(v, 0), u32_le_byte(v, 1), u32_le_byte(v, 2), u32_le_byte(v, 3))
            == v,
{
    assert(((v & 0xff) as u8 as u32) | ((((v >> 8u32) & 0xff) as u8 as u32) << 8u32) | ((((v
        >> 16u32) & 0xff) as u8 as u32) << 16u32) | ((((v >> 24u32) & 0xff) as u8 as u32)
        << 24u32) == v) by (bit_vector);
}

proof fn lemma_le_u32_roundtrip(b0: u8, b1: u8, b2: u8, b3: u8)
    ensures
        u32_le_byte(u32_from_le(b0, b1, b2, b3), 0) == b0,
        u32_le_byte(u32_from_le(b0, b1, b2, b3), 1) == b1,
        u32_le_byte(u32_from_le(b0, b1, b2, b3), 2) == b2,
        u32_le_byte(u32_from_le(b0, b1, b2, b3), 3) == b3,
{
    let v = u32_from_le(b0, b1, b2, b3);
    assert(v == (b0 as u32) | ((b1 as u32) << 8u32) | ((b2 as u32) << 16u32) | ((b3 as u32)
        << 24u32));
    assert(((b0 as u32) | ((b1 as u32) << 8u32) | ((b2 as u32) << 16u32) | ((b3 as u32)
        << 24u32)) & 0xff == b0 as u32) by (bit_vector);
    assert((((b0 as u32) | ((b1 as u32) << 8u32) | ((b2 as u32) << 16u32) | ((b3 as u32)
        << 24u32)) >> 8u32) & 0xff == b1 as u32) by (bit_vector);
    assert((((b0 as u32) | ((b1 as u32) << 8u32) | ((b2 as u32) << 16u32) | ((b3 as u32)
        << 24u32)) >> 16u32) & 0xff == b2 as u32) by (bit_vector);
    assert((((b0 as u32) | ((b1 as u32) << 8u32) | ((b2 as u32) << 16u32) | ((b3 as u32)
        << 24u32)) >> 24u32) & 0xff == b3 as u32) by (bit_vector);
}

proof fn lemma_flags_roundtrip(fl: u8)
    requires
        fl & 0xfcu8 == 0,
    ensures
        contact_flags(
            Contact {
                id: 0,
                x_bits: 0,
                y_bits: 0,
                tip: fl & CONTACT_FLAG_TIP != 0,
                confidence: fl & CONTACT_FLAG_CONFIDENCE != 0,
            },
        ) == fl,
{
    assert(fl & 0xfcu8 == 0 ==> ((if fl & 1u8 != 0 { 1u8 } else { 0u8 }) | (if fl & 2u8 != 0 {
        2u8
    } else {
        0u8
    })) == fl) by (bit_vector);
}

proof fn lemma_flags_of_contact(c: Contact)
    ensures
        contact_flags(c) & 0xfcu8 == 0,
        (contact_flags(c) & CONTACT_FLAG_TIP != 0) == c.tip,
        (contact_flags(c) & CONTACT_FLAG_CONFIDENCE != 0) == c.confidence,
{
    let t = c.tip;
    let k = c.confidence;
    assert(((if t { 1u8 } else { 0u8 }) | (if k { 2u8 } else { 0u8 })) & 0xfcu8 == 0)
        by (bit_vector);
    assert(((((if t { 1u8 } else { 0u8 }) | (if k { 2u8 } else { 0u8 })) & 1u8) != 0) == t)
        by (bit_vector);
    assert(((((if t { 1u8 } else { 0u8 }) | (if k { 2u8 } else { 0u8 })) & 2u8) != 0) == k)
        by (bit_vector);
}

proof fn lemma_button_flag(button: bool)
    ensures
        (if button { FLAG_BUTTON } else { 0u8 }) & 0xfeu8 == 0,
        ((if button { FLAG_BUTTON } else { 0u8 }) & FLAG_BUTTON != 0) == button,
{
    assert(((if button { 1u8 } else { 0u8 }) & 0xfeu8) == 0) by (bit_vector);
    assert((((if button { 1u8 } else { 0u8 }) & 1u8) != 0) == button) by (bit_vector);
}

proof fn lemma_button_roundtrip(fl: u8)
    requires
        fl & 0xfeu8 == 0,
    ensures
        (if fl & FLAG_BUTTON != 0 { FLAG_BUTTON } else { 0u8 }) == fl,
{
    assert(fl & 0xfeu8 == 0 ==> (if fl & 1u8 != 0 { 1u8 } else { 0u8 }) == fl) by (bit_vector);
}

/// Position arithmetic of contact records.
proof fn lemma_record_index(i: int, k: int)
    requires
        0 <= i,
        0 <= k < CONTACT_LEN,
    ensures
        (record_offset(i) + k - HEADER_LEN) / (CONTACT_LEN as int) == i,
        (record_offset(i) + k - HEADER_LEN) % (CONTACT_LEN as int) == k,
{
    assert((i * 10 + k) / 10 == i && (i * 10 + k) % 10 == k) by (nonlinear_arith)
        requires
            0 <= i,
            0 <= k < 10,
    ;
}

/// Once a prefix of the records fails, every longer prefix fails the same way.
proof fn lemma_decode_contacts_err_stable(b: Seq<u8>, m: nat, m2: nat)
    requires
        m <= m2,
        spec_decode_contacts(b, m) is Err,
    ensures
        spec_decode_contacts(b, m2) == spec_decode_contacts(b, m),
    decreases m2 - m,
{
    if m < m2 {
        lemma_decode_contacts_err_stable(b, m, (m2 - 1) as nat);
    }
}

/// What a successful decoding of the first `m` records says about them.
proof fn lemma_decode_contacts_ok(b: Seq<u8>, m: nat)
    requires
        spec_decode_contacts(b, m) is Ok,
    ensures
        spec_decode_contacts(b, m)->Ok_0.len() == m,
        forall|i: int| 0 <= i < m ==> #[trigger] record_error(b, i) is None,
        forall|i: int|
            0 <= i < m ==> #[trigger] spec_decode_contacts(b, m)->Ok_0[i] == record_contact(b, i),
    decreases m,
{
    if m > 0 {
        let prev = spec_decode_contacts(b, (m - 1) as nat);
        assert(prev is Ok);
        lemma_decode_contacts_ok(b, (m - 1) as nat);
        let cs = spec_decode_contacts(b, m)->Ok_0;
        assert(cs == prev->Ok_0.push(record_contact(b, m - 1)));
        assert forall|i: int| 0 <= i < m implies #[trigger] cs[i] == record_contact(b, i) by {
            if i < m - 1 {
                assert(cs[i] == prev->Ok_0[i]);
            }
        }
    }
}

/// Record `i` of an encoding decodes to contact `i` of the frame.
proof fn lemma_record_of_encoding(f: FrameModel, i: int)
    requires
        0 <= i < f.contacts.len(),
        all_finite(f),
    ensures
        record_error(spec_encode(f), i) is None,
        record_contact(spec_encode(f), i) == f.contacts[i],
{
    let b = spec_encode(f);
    let c = f.contacts[i];
    let o = record_offset(i);
    assert(o + CONTACT_LEN <= b.len()) by (nonlinear_arith)
        requires
            o == 15 + i * 10,
            b.len() == 15 + f.contacts.len() * 10,
            0 <= i < f.contacts.len(),
    ;
    assert forall|k: int| 0 <= k < CONTACT_LEN implies #[trigger] b[o + k] == contact_byte(c, k) by {
        lemma_record_index(i, k);
    }
    assert(b[o] == c.id);
    assert(b[o + 1] == contact_flags(c));
    lemma_flags_of_contact(c);
    assert(b[o + 2] == u32_le_byte(c.x_bits, 0));
    assert(b[o + 3] == u32_le_byte(c.x_bits, 1));
    assert(b[o + 4] == u32_le_byte(c.x_bits, 2));
    assert(b[o + 5] == u32_le_byte(c.x_bits, 3));
    assert(b[o + 6] == u32_le_byte(c.y_bits, 0));
    assert(b[o + 7] == u32_le_byte(c.y_bits, 1));
    assert(b[o + 8] == u32_le_byte(c.y_bits, 2));
    assert(b[o + 9] == u32_le_byte(c.y_bits, 3));
    lemma_u32_le_roundtrip(c.x_bits);
    lemma_u32_le_roundtrip(c.y_bits);
    assert(record_x(b, i) == c.x_bits);
    assert(record_y(b, i) == c.y_bits);
}

/// Decoding the first `m` records of an encoding gives the first `m` contacts.
proof fn lemma_decode_contacts_of_encoding(f: FrameModel, m: nat)
    requires
        m <= f.contacts.len(),
        all_finite(f),
    ensures
        spec_decode_contacts(spec_encode(f), m) == Ok::<Seq<Contact>, DecodeError>(
            f.contacts.take(m as int),
        ),
    decreases m,
{
    if m == 0 {
        assert(f.contacts.take(0) =~= Seq::<Contact>::empty());
    } else {
        lemma_decode_contacts_of_encoding(f, (m - 1) as nat);
        lemma_record_of_encoding(f, m - 1);
        assert(f.contacts.take(m - 1).push(f.contacts[m - 1]) =~= f.contacts.take(m as int));
    }
}

/// Law: every encodable frame with finite coordinates decodes back to itself.
pub proof fn lemma_decode_of_encode(f: FrameModel)
    requires
        encodable(f),
        all_finite(f),
    ensures
        spec_decode(spec_encode(f)) matches Ok(g) && g =~= f,
{
    let b = spec_encode(f);
    let n = f.contacts.len();
    assert(b[0] == magic_byte(0) && b[1] == magic_byte(1) && b[2] == magic_byte(2) && b[3]
        == magic_byte(3));
    assert(b[4] == VERSION);
    lemma_button_flag(f.button);
    assert(b[5] == (if f.button { FLAG_BUTTON } else { 0u8 }));
    assert(b[6] == n);
    lemma_decode_contacts_of_encoding(f, n);
    assert(f.contacts.take(n as int) =~= f.contacts);
    lemma_u32_le_roundtrip(f.seq);
    lemma_u32_le_roundtrip(f.scan_time_100us);
    assert(b[7] == u32_le_byte(f.seq, 0) && b[8] == u32_le_byte(f.seq, 1) && b[9] == u32_le_byte(
        f.seq,
        2,
    ) && b[10] == u32_le_byte(f.seq, 3));
    assert(b[11] == u32_le_byte(f.scan_time_100us, 0) && b[12] == u32_le_byte(
        f.scan_time_100us,
        1,
    ) && b[13] == u32_le_byte(f.scan_time_100us, 2) && b[14] == u32_le_byte(
        f.scan_time_100us,
        3,
    ));
}

/// Records whose flags and coordinates are all valid decode.
proof fn lemma_decode_contacts_all_ok(b: Seq<u8>, m: nat)
    requires
        forall|i: int| 0 <= i < m ==> #[trigger] record_error(b, i) is None,
    ensures
        spec_decode_contacts(b, m) is Ok,
    decreases m,
{
    if m > 0 {
        lemma_decode_contacts_all_ok(b, (m - 1) as nat);
        assert(record_error(b, m - 1) is None);
    }
}

/// Record `i` of `b` is valid: only the tip and confidence flags, and finite
/// coordinates.
pub open spec fn record_ok(b: Seq<u8>, i: int) -> bool {
    let o = record_offset(i);
    &&& b[o + 1] & 0xfcu8 == 0
    &&& f32_bits_finite(record_x(b, i))
    &&& f32_bits_finite(record_y(b, i))
}

/// What strict decoding accepts: a header with the magic `ATP1`, version 1,
/// only the button flag, at most ten contacts, exactly as many bytes as the
/// records need, and every record valid.
pub open spec fn acceptable(b: Seq<u8>) -> bool {
    &&& b.len() >= HEADER_LEN
    &&& has_magic(b)
    &&& b[4] == VERSION
    &&& b[5] & 0xfeu8 == 0
    &&& b[6] <= MAX_CONTACTS
    &&& b.len() == encoded_len(b[6] as int)
    &&& forall|i: int| 0 <= i < b[6] ==> #[trigger] record_ok(b, i)
}

/// Law: a packet decodes exactly when it is acceptable, and then the frame
/// holds its records in order, with the sequence number, scan time and
/// button read from the header.
pub proof fn lemma_decode_accepts(b: Seq<u8>)
    ensures
        spec_decode(b) is Ok <==> acceptable(b),
        spec_decode(b) matches Ok(f) ==> {
            &&& f.contacts.len() == b[6]
            &&& forall|i: int| 0 <= i < b[6] ==> #[trigger] f.contacts[i] == record_contact(b, i)
            &&& f.seq == u32_from_le(b[7], b[8], b[9], b[10])
            &&& f.scan_time_100us == u32_from_le(b[11], b[12], b[13], b[14])
            &&& f.button == (b[5] & FLAG_BUTTON != 0)
        },
{
    if b.len() >= HEADER_LEN && b[6] <= MAX_CONTACTS {
        let n = b[6] as nat;
        assert forall|i: int| 0 <= i < n implies (#[trigger] record_error(b, i) is None <==> record_ok(
            b,
            i,
        )) by {}
        if spec_decode_contacts(b, n) is Ok {
            lemma_decode_contacts_ok(b, n);
            assert forall|i: int| 0 <= i < n implies #[trigger] record_ok(b, i) by {
                assert(record_error(b, i) is None);
            }
        }
        if forall|i: int| 0 <= i < n ==> #[trigger] record_ok(b, i) {
            assert forall|i: int| 0 <= i < n implies #[trigger] record_error(b, i) is None by {
                assert(record_ok(b, i));
            }
            lemma_decode_contacts_all_ok(b, n);
        }
    }
}

/// Law: every accepted packet is exactly the encoding of the frame it decodes to.
pub proof fn lemma_encode_of_decode(b: Seq<u8>)
    requires
        spec_decode(b) is Ok,
    ensures
        encodable(spec_decode(b)->Ok_0),
        spec_encode(spec_decode(b)->Ok_0) == b,
{
    let g = spec_decode(b)->Ok_0;
    let n = b[6] as nat;
    lemma_decode_contacts_ok(b, n);
    let e = spec_encode(g);
    lemma_le_u32_roundtrip(b[7], b[8], b[9], b[10]);
    lemma_le_u32_roundtrip(b[11], b[12], b[13], b[14]);
    lemma_button_roundtrip(b[5]);
    assert forall|j: int| 0 <= j < b.len() implies #[trigger] e[j] == b[j] by {
        if j >= HEADER_LEN {
            let i = (j - HEADER_LEN) / (CONTACT_LEN as int);
            let k = (j - HEADER_LEN) % (CONTACT_LEN as int);
            assert(0 <= i < n && j == record_offset(i) + k && 0 <= k < CONTACT_LEN)
                by (nonlinear_arith)
                requires
                    i == (j - 15) / 10,
                    k == (j - 15) % 10,
                    15 <= j < 15 + n * 10,
            ;
            let c = record_contact(b, i);
            let o = record_offset(i);
            assert(record_error(b, i) is None);
            lemma_flags_roundtrip(b[o + 1]);
            lemma_le_u32_roundtrip(b[o + 2], b[o + 3], b[o + 4], b[o + 5]);
            lemma_le_u32_roundtrip(b[o + 6], b[o + 7], b[o + 8], b[o + 9]);
            assert(contact_flags(c) == contact_flags(
                Contact {
                    id: 0,
                    x_bits: 0,
                    y_bits: 0,
                    tip: b[o + 1] & CONTACT_FLAG_TIP != 0,
                    confidence: b[o + 1] & CONTACT_FLAG_CONFIDENCE != 0,
                },
            ));
        }
    }
    assert(e =~= b);
}

// ---- executable code ----

impl Frame {
    /// Low 16 bits of [`Frame::scan_time_100us`].
    pub fn scan_time_u16(&self) -> (r: u16)
        ensures
            r == self.scan_time_100us % 0x10000,
    {
        let v = self.scan_time_100us;
        assert((v & 0xffff) as u16 == v % 0x10000) by (bit_vector);
        (v & 0xffff) as u16
    }

    pub fn encode(&self) -> (buf: Vec<u8>)
        requires
            self.contacts.len() <= MAX_CONTACTS,
        ensures
            buf@ == spec_encode(self@),
            buf@.len() == encoded_len(self.contacts.len() as int),
    {
        let n = self.contacts.len();
        let mut buf: Vec<u8> = Vec::with_capacity(HEADER_LEN + n * CONTACT_LEN);
        buf.push(0x41u8);
        buf.push(0x54u8);
        buf.push(0x50u8);
        buf.push(0x31u8);
        buf.push(VERSION);
        buf.push(if self.button { FLAG_BUTTON } else { 0u8 });
        buf.push(n as u8);
        push_u32_le(&mut buf, self.seq);
        push_u32_le(&mut buf, self.scan_time_100us);
        let ghost f = self@;
        assert forall|j: int| 0 <= j < HEADER_LEN implies buf@[j] == frame_byte(f, j) by {}
        let mut i: usize = 0;
        while i < n
            invariant
                n == self.contacts.len(),
                n <= MAX_CONTACTS,
                f == self@,
                i <= n,
                buf@.len() == record_offset(i as int),
                forall|j: int| 0 <= j < buf@.len() ==> buf@[j] == frame_byte(f, j),
            decreases n - i,
        {
            let c = self.contacts[i];
            let mut flags: u8 = 0;
            if c.tip {
                flags = flags | CONTACT_FLAG_TIP;
            }
            if c.confidence {
                flags = flags | CONTACT_FLAG_CONFIDENCE;
            }
            proof {
                let t = c.tip;
                let k = c.confidence;
                assert(((if t { 1u8 } else { 0u8 }) | (if k { 2u8 } else { 0u8 })) == (if k {
                    (if t { 0u8 | 1u8 } else { 0u8 }) | 2u8
                } else {
                    if t { 0u8 | 1u8 } else { 0u8 }
                })) by (bit_vector);
            }
            assert(flags == contact_flags(c));
            let ghost start = buf@.len();
            buf.push(c.id);
            buf.push(flags);
            push_u32_le(&mut buf, c.x_bits);
            push_u32_le(&mut buf, c.y_bits);
            assert forall|k: int| 0 <= k < CONTACT_LEN implies #[trigger] buf@[start + k]
                == frame_byte(f, start + k) by {
                lemma_record_index(i as int, k);
            }
            assert forall|j: int| 0 <= j < buf@.len() implies buf@[j] == frame_byte(f, j) by {
                if j >= start {
                    assert(buf@[start + (j - start)] == frame_byte(f, start + (j - start)));
                }
            }
            i = i + 1;
        }
        assert(buf@ =~= spec_encode(f));
        buf
    }
}

fn push_u32_le(buf: &mut Vec<u8>, v: u32)
    ensures
        final(buf)@ == old(buf)@ + seq![
            u32_le_byte(v, 0),
            u32_le_byte(v, 1),
            u32_le_byte(v, 2),
            u32_le_byte(v, 3),
        ],
{
    buf.push((v & 0xff) as u8);
    buf.push(((v >> 8u32) & 0xff) as u8);
    buf.push(((v >> 16u32) & 0xff) as u8);
    buf.push(((v >> 24u32) & 0xff) as u8);
    assert(buf@ =~= old(buf)@ + seq![
        u32_le_byte(v, 0),
        u32_le_byte(v, 1),
        u32_le_byte(v, 2),
        u32_le_byte(v, 3),
    ]);
}

fn read_u32_le(buf: &[u8], at: usize) -> (r: u32)
    requires
        at + 4 <= buf@.len(),
    ensures
        r == u32_from_le(buf@[at as int], buf@[at + 1], buf@[at + 2], buf@[at + 3]),
{
    (buf[at] as u32) | ((buf[at + 1] as u32) << 8u32) | ((buf[at + 2] as u32) << 16u32) | ((buf[at
        + 3] as u32) << 24u32)
}

fn bits_finite(bits: u32) -> (r: bool)
    ensures
        r == f32_bits_finite(bits),
{
    (bits >> 23u32) & 0xff != 0xff
}

/// Strict decoding of one ATP1 packet.
pub fn decode(buf: &[u8]) -> (r: Result<Frame, DecodeError>)
    ensures
        match r {
            Ok(f) => spec_decode(buf@) == Ok::<FrameModel, DecodeError>(f@),
            Err(e) => spec_decode(buf@) == Err::<FrameModel, DecodeError>(e),
        },
{
    if buf.len() < HEADER_LEN {
        return Err(DecodeError::TooShort);
    }
    if !(buf[0] == 0x41u8 && buf[1] == 0x54u8 && buf[2] == 0x50u8 && buf[3] == 0x31u8) {
        return Err(DecodeError::BadMagic);
    }
    if buf[4] != VERSION {
        return Err(DecodeError::BadVersion);
    }
    if buf[5] & 0xfeu8 != 0 {
        return Err(DecodeError::UnknownFlag { at: 5 });
    }
    let n = buf[6] as usize;
    if n > MAX_CONTACTS {
        return Err(DecodeError::BadContactCount(n));
    }
    let expected = HEADER_LEN + n * CONTACT_LEN;
    if buf.len() < expected {
        return Err(DecodeError::TooShort);
    }
    if buf.len() > expected {
        return Err(DecodeError::UnknownFlag { at: expected });
    }
    let seq = read_u32_le(buf, 7);
    let scan_time_100us = read_u32_le(buf, 11);
    let mut contacts: Vec<Contact> = Vec::with_capacity(n);
    let mut i: usize = 0;
    while i < n
        invariant
            n <= MAX_CONTACTS,
            n == buf@[6],
            buf@.len() >= HEADER_LEN,
            has_magic(buf@),
            buf@[4] == VERSION,
            buf@[5] & 0xfeu8 == 0,
            buf@.len() == encoded_len(n as int),
            i <= n,
            spec_decode_contacts(buf@, i as nat) == Ok::<Seq<Contact>, DecodeError>(contacts@),
        decreases n - i,
    {
        let off = HEADER_LEN + i * CONTACT_LEN;
        let fl = buf[off + 1];
        if fl & 0xfcu8 != 0 {
            proof {
                lemma_decode_contacts_err_stable(buf@, (i + 1) as nat, n as nat);
            }
            return Err(DecodeError::UnknownFlag { at: off + 1 });
        }
        let x = read_u32_le(buf, off + 2);
        let y = read_u32_le(buf, off + 6);
        if !bits_finite(x) || !bits_finite(y) {
            proof {
                lemma_decode_contacts_err_stable(buf@, (i + 1) as nat, n as nat);
            }
            return Err(DecodeError::NonFiniteCoordinate { id: buf[off] });
        }
        contacts.push(
            Contact {
                id: buf[off],
                x_bits: x,
                y_bits: y,
                tip: fl & CONTACT_FLAG_TIP != 0,
                confidence: fl & CONTACT_FLAG_CONFIDENCE != 0,
            },
        );
        i = i + 1;
    }
    Ok(Frame { seq, scan_time_100us, button: buf[5] & FLAG_BUTTON != 0, contacts })
}


/// A sequence this far behind the last seen value cannot be a retransmit:
/// it is treated as a sender restart.
pub const DUPLICATE_WINDOW: i64 = 1_000_000;

/// Serial-number distance from `last` to `seq`: the wrapping difference
/// read as a signed 32-bit value.
pub open spec fn seq_distance(seq: u32, last: u32) -> int {
    let d = if seq >= last { seq - last } else { seq - last + 0x1_0000_0000 };
    if d >= 0x8000_0000 { d - 0x1_0000_0000 } else { d }
}

/// Classification of an incoming sequence number.
#[derive(Debug, Clone, Copy, PartialEq, Eq, Structural)]
pub enum SeqClass {
    /// Normal forward step.
    Forward,
    /// Forward progress after a hole; `lost` counts the missing numbers.
    ForwardAfterGap { lost: u32 },
    /// At or behind the last seen number.
    Duplicate,
}

/// Classifies incoming sequence numbers per sender.
pub struct SequenceTracker {
    last: Option<u32>,
}

impl View for SequenceTracker {
    type V = Option<u32>;

    closed spec fn view(&self) -> Option<u32> {
        self.last
    }
}

/// What `classify` answers for `seq` after `last`, and what it remembers.
pub open spec fn spec_classify(last: Option<u32>, seq: u32) -> (SeqClass, Option<u32>) {
    match last {
        None => (SeqClass::Forward, Some(seq)),
        Some(l) => {
            let d = seq_distance(seq, l);
            if -DUPLICATE_WINDOW <= d <= 0 {
                (SeqClass::Duplicate, last)
            } else if d > 1 {
                (SeqClass::ForwardAfterGap { lost: (d - 1) as u32 }, Some(seq))
            } else {
                (SeqClass::Forward, Some(seq))
            }
        },
    }
}

impl SequenceTracker {
    pub fn new() -> (t: Self)
        ensures
            t@ == None::<u32>,
    {
        SequenceTracker { last: None }
    }

    pub fn classify(&mut self, seq: u32) -> (r: SeqClass)
        ensures
            (r, final(self)@) == spec_classify(old(self)@, seq),
    {
        match self.last {
            None => {
                self.last = Some(seq);
                SeqClass::Forward
            },
            Some(last) => {
                let w = seq.wrapping_sub(last);
                let dist: i64 = if w >= 0x8000_0000u32 {
                    w as i64 - 0x1_0000_0000i64
                } else {
                    w as i64
                };
                if !(-DUPLICATE_WINDOW <= dist && dist <= 0) {
                    self.last = Some(seq);
                    if dist > 1 {
                        SeqClass::ForwardAfterGap { lost: (dist - 1) as u32 }
                    } else {
                        SeqClass::Forward
                    }
                } else {
                    SeqClass::Duplicate
                }
            },
        }
    }
}

/// Law: a number that is not a duplicate becomes the new reference point,
/// so replaying it right away is reported as a duplicate.
pub proof fn lemma_classify_then_replay(last: Option<u32>, seq: u32)
    requires
        spec_classify(last, seq).0 != SeqClass::Duplicate,
    ensures
        spec_classify(spec_classify(last, seq).1, seq).0 == SeqClass::Duplicate,
{
}

/// Law: the next number after the reference point is a plain forward step,
/// across the wrap from `u32::MAX` to `0` too.
pub proof fn lemma_classify_successor(last: u32)
    ensures
        spec_classify(Some(last), (if last == u32::MAX { 0 } else { last + 1 }) as u32)
            == (SeqClass::Forward, Some((if last == u32::MAX { 0 } else { last + 1 }) as u32)),
{
}

/// Law: a number `k` steps ahead of the reference point (wrapping past
/// `u32::MAX`, for `k` below 2^31) is a plain forward step when `k` is 1 and
/// otherwise reports the `k - 1` numbers skipped; either way it becomes the
/// new reference point.
pub proof fn lemma_forward_steps_count_skipped(last: u32, k: u32)
    requires
        1 <= k < 0x8000_0000,
    ensures
        ({
            let seq = ((last + k) % 0x1_0000_0000) as u32;
            &&& k == 1 ==> spec_classify(Some(last), seq) == (SeqClass::Forward, Some(seq))
            &&& k >= 2 ==> spec_classify(Some(last), seq) == (SeqClass::ForwardAfterGap { lost: (k - 1) as u32 }, Some(seq))
        }),
{
    let seq = ((last + k) % 0x1_0000_0000) as u32;
    if last + k < 0x1_0000_0000 {
        assert(seq == last + k);
    } else {
        assert(seq == last + k - 0x1_0000_0000);
    }
    assert(seq_distance(seq, last) == k);
}

/// Law: a number at or up to a million steps behind the reference point is
/// a duplicate and leaves the reference point where it was.
pub proof fn lemma_backward_steps_are_duplicates(last: u32, k: u32)
    requires
        k <= DUPLICATE_WINDOW,
    ensures
        ({
            let seq = ((last + 0x1_0000_0000 - k) % 0x1_0000_0000) as u32;
            spec_classify(Some(last), seq) == (SeqClass::Duplicate, Some(last))
        }),
{
    let seq = ((last + 0x1_0000_0000 - k) % 0x1_0000_0000) as u32;
    if last >= k {
        assert(seq == last - k);
    } else {
        assert(seq == last + 0x1_0000_0000 - k);
    }
    assert(seq_distance(seq, last) == -(k as int));
}

} // verus!
