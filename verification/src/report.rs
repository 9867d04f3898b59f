//! Decoding of a PTP touch input report against a report layout.
//!
//! The decoder yields contacts in chip pixels; turning pixels into
//! millimeters with the layout's physical extent is left to the caller.
use vstd::prelude::*;

verus! {

/// A little-endian bit field inside a report.
#[derive(Clone, Copy, Debug, PartialEq, Eq, Structural)]
pub struct BitField {
    pub bit_offset: usize,
    pub bit_width: u8,
}

/// Descriptor-defined per-contact fields, relative to the start of a contact.
#[derive(Clone, Copy, Debug, PartialEq, Eq, Structural)]
pub struct ContactBitFields {
    pub stride_bits: usize,
    pub tip: BitField,
    pub confidence: Option<BitField>,
    pub id: BitField,
    pub x: BitField,
    pub y: BitField,
}

/// Where the fields of an input report live.
#[derive(Clone, Copy, Debug, PartialEq, Eq)]
pub struct Layout {
    pub report_id: u8,
    pub input_mode_report_id: Option<u8>,
    pub contact_slots: usize,
    pub bytes_per_contact: usize,
    pub fingers_offset: usize,
    pub fingers_bit_offset: usize,
    pub scan_time_offset: usize,
    pub contact_count_offset: usize,
    pub button_offset: usize,
    pub button_bit: u8,
    pub logical_x_max: i32,
    pub logical_y_max: i32,
    /// Physical extent in millimeters, as the bit pattern of an `f64`.
    pub physical_x_max_mm_bits: u64,
    /// Physical extent in millimeters, as the bit pattern of an `f64`.
    pub physical_y_max_mm_bits: u64,
    pub total_payload_bytes: usize,
    pub contact_fields: Option<ContactBitFields>,
    pub scan_time_field: Option<BitField>,
    pub contact_count_field: Option<BitField>,
    pub button_field: Option<BitField>,
}

/// One decoded contact in chip pixels.
#[derive(Clone, Copy, Debug, PartialEq, Eq, Structural)]
pub struct RawContact {
    pub id: u8,
    pub x: i32,
    pub y: i32,
    pub tip: bool,
    pub confidence: bool,
}

#[derive(Clone, Debug, PartialEq, Eq)]
pub struct RawFrame {
    pub contacts: Vec<RawContact>,
    pub scan_time_100us: u16,
    pub button: bool,
}

/// Bit `k` of the report, counting from the least significant bit of byte 0.
pub open spec fn report_bit(report: Seq<u8>, k: int) -> u64 {
    ((report[k / 8] >> ((k % 8) as u8)) & 1u8) as u64
}

/// The value of the `width` bits starting at `offset`, least significant first.
pub open spec fn bits_value(report: Seq<u8>, offset: int, width: nat) -> u64
    decreases width,
{
    if width == 0 {
        0
    } else {
        bits_value(report, offset, (width - 1) as nat) | (report_bit(report, offset + width - 1)
            << ((width - 1) as u64))
    }
}

/// What `read_bits_at` yields.
pub open spec fn spec_read_bits_at(report: Seq<u8>, bit_offset: usize, bit_width: u8) -> Option<
    u64,
> {
    if bit_width == 0 || bit_width > 64 {
        None
    } else if bit_offset + bit_width > usize::MAX || report.len() * 8 > usize::MAX {
        None
    } else if bit_offset + bit_width > report.len() * 8 {
        None
    } else {
        Some(bits_value(report, bit_offset as int, bit_width as nat))
    }
}

pub fn read_bits_at(report: &[u8], bit_offset: usize, bit_width: u8) -> (r: Option<u64>)
    ensures
        r == spec_read_bits_at(report@, bit_offset, bit_width),
{
    if bit_width == 0 || bit_width > 64 {
        return None;
    }
    let end = match bit_offset.checked_add(bit_width as usize) {
        Some(e) => e,
        None => return None,
    };
    let total_bits = match report.len().checked_mul(8) {
        Some(t) => t,
        None => return None,
    };
    if end > total_bits {
        return None;
    }
    let mut value: u64 = 0;
    let mut i: usize = 0;
    while i < bit_width as usize
        invariant
            0 < bit_width <= 64,
            i <= bit_width,
            bit_offset + bit_width <= report@.len() * 8,
            bit_offset + bit_width <= usize::MAX,
            value == bits_value(report@, bit_offset as int, i as nat),
        decreases bit_width - i,
    {
        let bit = bit_offset + i;
        let byte = report[bit / 8];
        value = value | ((((byte >> ((bit % 8) as u8)) & 1u8) as u64) << (i as u64));
        i = i + 1;
    }
    Some(value)
}

pub fn read_bits(report: &[u8], field: BitField) -> (r: Option<u64>)
    ensures
        r == spec_read_bits_at(report@, field.bit_offset, field.bit_width),
{
    read_bits_at(report, field.bit_offset, field.bit_width)
}

/// Law: a field read never carries bits beyond its width.
pub proof fn lemma_bits_value_fits(report: Seq<u8>, offset: int, width: nat)
    requires
        width <= 64,
    ensures
        width < 64 ==> bits_value(report, offset, width) < (1u64 << (width as u64)),
    decreases width,
{
    if width == 0 {
        assert(0u64 < (1u64 << 0u64)) by (bit_vector);
    } else {
        lemma_bits_value_fits(report, offset, (width - 1) as nat);
        let prev = bits_value(report, offset, (width - 1) as nat);
        let b = report_bit(report, offset + width - 1);
        let w = (width - 1) as u64;
        let byte = report[(offset + width - 1) / 8];
        let sh = ((offset + width - 1) % 8) as u8;
        assert(b == ((byte >> sh) & 1u8) as u64);
        assert(((byte >> sh) & 1u8) as u64 <= 1) by (bit_vector);
        assert(bits_value(report, offset, width) == prev | (b << w));
        assert(w < 63 ==> prev < (1u64 << w) && b <= 1 ==> (prev | (b << w)) < (1u64 << (w
            + 1))) by (bit_vector);
    }
}

impl Layout {
    /// Each fixed offset that is read because its field is not described
    /// bit-wise fits inside the payload, fixed contact records hold at least
    /// the six bytes read from them, and the per-contact reads cannot overflow.
    pub open spec fn well_formed(&self) -> bool {
        &&& self.total_payload_bytes > 0
        &&& self.contact_count_field is None ==> self.contact_count_offset < self.total_payload_bytes
        &&& self.scan_time_field is None ==> self.scan_time_offset + 1 < self.total_payload_bytes
        &&& self.button_field is None ==> self.button_offset < self.total_payload_bytes
            && self.button_bit < 8
        &&& match self.contact_fields {
            Some(f) => {
                let top = self.fingers_bit_offset + self.contact_slots * f.stride_bits;
                &&& top + f.tip.bit_offset <= usize::MAX
                &&& top + f.id.bit_offset <= usize::MAX
                &&& top + f.x.bit_offset <= usize::MAX
                &&& top + f.y.bit_offset <= usize::MAX
                &&& (f.confidence matches Some(c) ==> top + c.bit_offset <= usize::MAX)
            },
            None => {
                &&& self.bytes_per_contact >= 6
                &&& self.fingers_offset + self.contact_slots * self.bytes_per_contact <= usize::MAX
            },
        }
    }

    /// Where a described scan-time or button field cannot be read from
    /// `report`, the fixed offset it falls back to lies inside `report`.
    pub open spec fn fallbacks_fit(&self, report: Seq<u8>) -> bool {
        &&& (self.scan_time_field matches Some(f) && spec_read_bits_at(report, f.bit_offset, f.bit_width)
            is None) ==> self.scan_time_offset + 1 < report.len()
        &&& (self.button_field matches Some(f) && spec_read_bits_at(report, f.bit_offset, f.bit_width)
            is None) ==> self.button_offset < report.len() && self.button_bit < 8
    }
}

/// Start of contact slot `i` in bits (bit-field layouts).
pub open spec fn slot_base(layout: Layout, f: ContactBitFields, i: int) -> int {
    layout.fingers_bit_offset + i * f.stride_bits
}

pub open spec fn read_slot_field(report: Seq<u8>, layout: Layout, f: ContactBitFields, i: int, field: BitField) -> Option<u64> {
    spec_read_bits_at(report, (slot_base(layout, f, i) + field.bit_offset) as usize, field.bit_width)
}

/// Contact `i` of a bit-field layout, or `None` when one of its required fields cannot be read.
pub open spec fn spec_bit_contact(report: Seq<u8>, layout: Layout, f: ContactBitFields, i: int) -> Option<RawContact> {
    match (
        read_slot_field(report, layout, f, i, f.id),
        read_slot_field(report, layout, f, i, f.x),
        read_slot_field(report, layout, f, i, f.y),
        read_slot_field(report, layout, f, i, f.tip),
    ) {
        (Some(id), Some(x), Some(y), Some(tip)) => Some(
            RawContact {
                id: id as u8,
                x: x as i32,
                y: y as i32,
                confidence: match f.confidence {
                    Some(c) => match read_slot_field(report, layout, f, i, c) {
                        Some(v) => v != 0,
                        None => false,
                    },
                    None => true,
                },
                tip: tip != 0,
            },
        ),
        _ => None,
    }
}

pub open spec fn u16_from_le(b0: u8, b1: u8) -> u16 {
    ((b0 as u16) | ((b1 as u16) << 8u16)) as u16
}

/// Contact `i` of a fixed-record layout.
pub open spec fn spec_byte_contact(report: Seq<u8>, layout: Layout, i: int) -> RawContact {
    let off = layout.fingers_offset + i * layout.bytes_per_contact;
    RawContact {
        id: report[off + 1],
        x: u16_from_le(report[off + 2], report[off + 3]) as i32,
        y: u16_from_le(report[off + 4], report[off + 5]) as i32,
        confidence: report[off] & 0x01u8 != 0,
        tip: report[off] & 0x02u8 != 0,
    }
}

/// Number of contacts the report announces, before clamping to the slots.
pub open spec fn spec_contact_count(report: Seq<u8>, layout: Layout) -> u64 {
    match layout.contact_count_field {
        Some(field) => match spec_read_bits_at(report, field.bit_offset, field.bit_width) {
            Some(v) => v,
            None => 0,
        },
        None => report[layout.contact_count_offset as int] as u64,
    }
}

pub open spec fn spec_contact_limit(report: Seq<u8>, layout: Layout) -> int {
    let c = spec_contact_count(report, layout) as usize;
    if c < layout.contact_slots { c as int } else { layout.contact_slots as int }
}

pub open spec fn spec_scan_time(report: Seq<u8>, layout: Layout) -> u16 {
    match layout.scan_time_field {
        Some(field) => match spec_read_bits_at(report, field.bit_offset, field.bit_width) {
            Some(v) => v as u16,
            None => u16_from_le(report[layout.scan_time_offset as int], report[layout.scan_time_offset + 1]),
        },
        None => u16_from_le(report[layout.scan_time_offset as int], report[layout.scan_time_offset + 1]),
    }
}

pub open spec fn spec_button(report: Seq<u8>, layout: Layout) -> bool {
    let fallback = (report[layout.button_offset as int] & (1u8 << layout.button_bit)) != 0;
    match layout.button_field {
        Some(field) => match spec_read_bits_at(report, field.bit_offset, field.bit_width) {
            Some(v) => v != 0,
            None => fallback,
        },
        None => fallback,
    }
}

/// Number of fixed records that fit in the report, capped at `n`.
pub open spec fn byte_records_available(report: Seq<u8>, layout: Layout, n: int) -> int
    decreases n,
{
    if n <= 0 {
        0
    } else {
        let prev = byte_records_available(report, layout, n - 1);
        if prev == n - 1 && layout.fingers_offset + (n - 1) * layout.bytes_per_contact
            + layout.bytes_per_contact <= report.len() {
            n
        } else {
            prev
        }
    }
}

pub fn decode(layout: &Layout, report: &[u8]) -> (r: Option<RawFrame>)
    requires
        layout.well_formed(),
        report@.len() >= layout.total_payload_bytes ==> layout.fallbacks_fit(report@),
    ensures
        report@.len() < layout.total_payload_bytes ==> r is None,
        report@.len() >= layout.total_payload_bytes && report@[0] != layout.report_id ==> r is None,
        report@.len() >= layout.total_payload_bytes && report@[0] == layout.report_id ==> match r {
            Some(fr) => {
                let n = spec_contact_limit(report@, *layout);
                &&& fr.scan_time_100us == spec_scan_time(report@, *layout)
                &&& fr.button == spec_button(report@, *layout)
                &&& match layout.contact_fields {
                    Some(f) => fr.contacts@.len() == n && forall|i: int|
                        0 <= i < n ==> spec_bit_contact(report@, *layout, f, i) == Some(
                            #[trigger] fr.contacts@[i],
                        ),
                    None => fr.contacts@.len() == byte_records_available(report@, *layout, n)
                        && forall|i: int|
                        0 <= i < fr.contacts@.len() ==> #[trigger] fr.contacts@[i]
                            == spec_byte_contact(report@, *layout, i),
                }
            },
            None => layout.contact_fields matches Some(f) && exists|i: int|
                0 <= i < spec_contact_limit(report@, *layout) && spec_bit_contact(
                    report@,
                    *layout,
                    f,
                    i,
                ) is None,
        },
{
    if report.len() < layout.total_payload_bytes {
        return None;
    }
    if report[0] != layout.report_id {
        return None;
    }
    let contact_count: u64 = match layout.contact_count_field {
        Some(field) => match read_bits(report, field) {
            Some(v) => v,
            None => 0,
        },
        None => report[layout.contact_count_offset] as u64,
    };
    let count = contact_count as usize;
    let n = if count < layout.contact_slots { count } else { layout.contact_slots };
    let mut contacts: Vec<RawContact> = Vec::with_capacity(n);
    let mut i: usize = 0;
    match layout.contact_fields {
        Some(fields) => {
            while i < n
                invariant
                    layout.well_formed(),
                    layout.contact_fields == Some(fields),
                    n == spec_contact_limit(report@, *layout),
                    n <= layout.contact_slots,
                    i <= n,
                    contacts@.len() == i,
                    forall|j: int|
                        0 <= j < i ==> spec_bit_contact(report@, *layout, fields, j) == Some(
                            #[trigger] contacts@[j],
                        ),
                decreases n - i,
            {
                proof {
                    assert(i * fields.stride_bits <= layout.contact_slots * fields.stride_bits)
                        by (nonlinear_arith)
                        requires
                            i <= layout.contact_slots,
                    ;
                }
                let base = layout.fingers_bit_offset + i * fields.stride_bits;
                let id = read_bits_at(report, base + fields.id.bit_offset, fields.id.bit_width);
                let x = read_bits_at(report, base + fields.x.bit_offset, fields.x.bit_width);
                let y = read_bits_at(report, base + fields.y.bit_offset, fields.y.bit_width);
                let confidence = match fields.confidence {
                    Some(c) => match read_bits_at(report, base + c.bit_offset, c.bit_width) {
                        Some(v) => v != 0,
                        None => false,
                    },
                    None => true,
                };
                let tip = read_bits_at(report, base + fields.tip.bit_offset, fields.tip.bit_width);
                match (id, x, y, tip) {
                    (Some(id), Some(x), Some(y), Some(tip)) => {
                        contacts.push(
                            RawContact {
                                id: id as u8,
                                x: x as i32,
                                y: y as i32,
                                tip: tip != 0,
                                confidence,
                            },
                        );
                    },
                    _ => {
                        assert(spec_bit_contact(report@, *layout, fields, i as int) is None);
                        return None;
                    },
                }
                i = i + 1;
            }
        },
        None => {
            while i < n
                invariant
                    layout.well_formed(),
                    layout.contact_fields is None,
                    n == spec_contact_limit(report@, *layout),
                    n <= layout.contact_slots,
                    i <= n,
                    contacts@.len() == i,
                    byte_records_available(report@, *layout, i as int) == i,
                    forall|j: int|
                        0 <= j < i ==> #[trigger] contacts@[j] == spec_byte_contact(
                            report@,
                            *layout,
                            j,
                        ),
                ensures
                    contacts@.len() == byte_records_available(report@, *layout, n as int),
                    forall|j: int|
                        0 <= j < contacts@.len() ==> #[trigger] contacts@[j] == spec_byte_contact(
                            report@,
                            *layout,
                            j,
                        ),
                decreases n - i,
            {
                proof {
                    assert(i * layout.bytes_per_contact + layout.bytes_per_contact
                        <= layout.contact_slots * layout.bytes_per_contact) by (nonlinear_arith)
                        requires
                            i + 1 <= layout.contact_slots,
                    ;
                }
                let off = layout.fingers_offset + i * layout.bytes_per_contact;
                if off + layout.bytes_per_contact > report.len() {
                    proof {
                        lemma_byte_records_stop(report@, *layout, i as int, n as int);
                    }
                    break;
                }
                let flags = report[off];
                let id = report[off + 1];
                let x = ((report[off + 2] as u16) | ((report[off + 3] as u16) << 8u16)) as i32;
                let y = ((report[off + 4] as u16) | ((report[off + 5] as u16) << 8u16)) as i32;
                contacts.push(
                    RawContact {
                        id,
                        x,
                        y,
                        tip: (flags & 0x02u8) != 0,
                        confidence: (flags & 0x01u8) != 0,
                    },
                );
                i = i + 1;
            }
        },
    }
    let scan_time: u16 = match layout.scan_time_field {
        Some(field) => match read_bits(report, field) {
            Some(v) => v as u16,
            None => ((report[layout.scan_time_offset] as u16) | ((report[layout.scan_time_offset
                + 1] as u16) << 8u16)) as u16,
        },
        None => ((report[layout.scan_time_offset] as u16) | ((report[layout.scan_time_offset
            + 1] as u16) << 8u16)) as u16,
    };
    let button = match layout.button_field {
        Some(field) => match read_bits(report, field) {
            Some(v) => v != 0,
            None => (report[layout.button_offset] & (1u8 << layout.button_bit)) != 0,
        },
        None => (report[layout.button_offset] & (1u8 << layout.button_bit)) != 0,
    };
    Some(RawFrame { contacts, scan_time_100us: scan_time, button })
}

/// Once a fixed record falls off the end, no later record is taken.
proof fn lemma_byte_records_stop(report: Seq<u8>, layout: Layout, i: int, n: int)
    requires
        0 <= i <= n,
        byte_records_available(report, layout, i) == i,
        layout.fingers_offset + i * layout.bytes_per_contact + layout.bytes_per_contact
            > report.len(),
    ensures
        byte_records_available(report, layout, n) == i,
    decreases n - i,
{
    if n > i {
        lemma_byte_records_stop(report, layout, i, n - 1);
    }
}

/// Law: a fixed six-byte contact record reads as flags, id, x, y: the
/// first byte's lowest bit (0x01) is the confidence flag and its second bit
/// (0x02) the tip flag, the second byte is the contact id, and the next two
/// little-endian 16-bit words are x and y.
pub proof fn lemma_fixed_record_fields(report: Seq<u8>, layout: Layout, i: int)
    ensures
        ({
            let off = layout.fingers_offset + i * layout.bytes_per_contact;
            let c = spec_byte_contact(report, layout, i);
            &&& c.confidence <==> report[off] % 2 == 1
            &&& c.tip <==> (report[off] / 2) % 2 == 1
            &&& c.id == report[off + 1]
            &&& c.x == report[off + 2] + 256 * report[off + 3]
            &&& c.y == report[off + 4] + 256 * report[off + 5]
        }),
{
    let off = layout.fingers_offset + i * layout.bytes_per_contact;
    let f = report[off];
    assert((f & 0x01u8 != 0) <==> f % 2 == 1) by (bit_vector);
    assert((f & 0x02u8 != 0) <==> (f / 2) % 2 == 1) by (bit_vector);
    let (a, b, c, d) = (report[off + 2], report[off + 3], report[off + 4], report[off + 5]);
    assert(u16_from_le(a, b) == a + 256 * b) by (bit_vector);
    assert(u16_from_le(c, d) == c + 256 * d) by (bit_vector);
}

} // verus!
