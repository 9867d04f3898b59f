use macos_trackpad_companion::proto::{
    decode, Contact, DecodeError, Frame, SeqClass, SequenceTracker, CONTACT_LEN, HEADER_LEN,
    MAX_CONTACTS,
};

fn contact(id: u8, x: f32, y: f32, tip: bool, confidence: bool) -> Contact {
    Contact { id, x_bits: x.to_bits(), y_bits: y.to_bits(), tip, confidence }
}

fn frame(seq: u32) -> Frame {
    Frame {
        seq,
        scan_time_100us: 123_456,
        button: false,
        contacts: vec![contact(3, 25.0, 1.0, true, true)],
    }
}

#[test]
fn header_layout_matches_spec() {
    let bytes = frame(0xdead_beef).encode();
    assert_eq!(bytes.len(), HEADER_LEN + CONTACT_LEN);
    assert_eq!(&bytes[0..4], b"ATP1");
    assert_eq!(bytes[4], 1);
    assert_eq!(bytes[5], 0);
    assert_eq!(bytes[6], 1);
    assert_eq!(&bytes[7..11], &[0xef, 0xbe, 0xad, 0xde]);
    assert_eq!(&bytes[11..15], &[0x40, 0xe2, 0x01, 0x00]);
    assert_eq!(bytes[15], 3);
    assert_eq!(bytes[16], 0b11);
    assert_eq!(&bytes[17..21], &[0x00, 0x00, 0xc8, 0x41]);
    assert_eq!(&bytes[21..25], &[0x00, 0x00, 0x80, 0x3f]);
}

#[test]
fn round_trips_empty_and_multi_contact() {
    for n in [0usize, 1, MAX_CONTACTS] {
        let f = Frame {
            seq: 7,
            scan_time_100us: u16::MAX as u32 + 999,
            button: true,
            contacts: (0..n)
                .map(|i| {
                    contact(i as u8 * 3, -12.75 + i as f32, 300.25 - i as f32, i % 2 == 0, i % 3 != 0)
                })
                .collect(),
        };
        assert_eq!(decode(&f.encode()).unwrap(), f);
    }
}

#[test]
fn scan_time_exposes_low_sixteen_bits() {
    let mut f = frame(0);
    f.scan_time_100us = 0x0012_3456;
    assert_eq!(f.scan_time_u16(), 0x3456);
}

#[test]
fn rejects_bad_magic_version_and_flags() {
    let mut b = frame(1).encode();
    b[0] = b'X';
    assert_eq!(decode(&b), Err(DecodeError::BadMagic));

    let mut b = frame(1).encode();
    b[4] = 2;
    assert_eq!(decode(&b), Err(DecodeError::BadVersion));

    let mut b = frame(1).encode();
    b[5] |= 0b1000_0000;
    assert_eq!(decode(&b), Err(DecodeError::UnknownFlag { at: 5 }));

    let mut b = frame(1).encode();
    b[16] |= 0b0100_0000;
    assert_eq!(decode(&b), Err(DecodeError::UnknownFlag { at: 16 }));
}

#[test]
fn rejects_count_and_length_violations() {
    let mut b = frame(1).encode();
    b[6] = (MAX_CONTACTS + 1) as u8;
    assert_eq!(decode(&b), Err(DecodeError::BadContactCount(MAX_CONTACTS + 1)));

    let full = frame(1).encode();
    for cut in 0..full.len() {
        assert!(
            matches!(decode(&full[..cut]), Err(DecodeError::TooShort)),
            "prefix of len {cut} should be rejected"
        );
    }
    let mut padded = full.clone();
    padded.push(0);
    assert!(matches!(decode(&padded), Err(DecodeError::UnknownFlag { .. })));
}

#[test]
fn rejects_non_finite_coordinates() {
    let mut f = frame(1);
    f.contacts[0].x_bits = f32::NAN.to_bits();
    assert!(matches!(decode(&f.encode()), Err(DecodeError::NonFiniteCoordinate { id: 3 })));
}

#[test]
fn sequence_tracker_classifies_forward_dup_restart_and_gaps() {
    let mut t = SequenceTracker::new();
    assert_eq!(t.classify(100), SeqClass::Forward);
    assert_eq!(t.classify(101), SeqClass::Forward);
    assert_eq!(t.classify(101), SeqClass::Duplicate);
    assert_eq!(t.classify(90), SeqClass::Duplicate);
    assert_eq!(t.classify(104), SeqClass::ForwardAfterGap { lost: 2 });
    assert_eq!(t.classify(u32::MAX), SeqClass::Duplicate);
    let mut t = SequenceTracker::new();
    assert_eq!(t.classify(u32::MAX - 5), SeqClass::Forward);
    for s in [u32::MAX - 4, u32::MAX - 3, u32::MAX - 2, u32::MAX - 1] {
        assert_eq!(t.classify(s), SeqClass::Forward);
    }
    assert_eq!(t.classify(u32::MAX), SeqClass::Forward);
    assert_eq!(t.classify(0), SeqClass::Forward);
    assert_eq!(t.classify(1), SeqClass::Forward);
    let mut t = SequenceTracker::new();
    assert_eq!(t.classify(900_000_000), SeqClass::Forward);
    assert_eq!(t.classify(42), SeqClass::Forward);
}

fn hex(s: &str) -> Vec<u8> {
    s.split_whitespace().map(|x| u8::from_str_radix(x, 16).unwrap()).collect()
}

#[test]
fn canonical_vector_decodes_and_reencodes() {
    let bytes = hex(
        "41 54 50 31 01 01 02 2a 00 00 00 06 12 0f 00 \
         05 03 00 00 58 c1 00 80 9a 42 \
         09 01 00 00 80 40 00 00 00 bf",
    );
    let expect = Frame {
        seq: 42,
        scan_time_100us: 987_654,
        button: true,
        contacts: vec![contact(5, -13.5, 77.25, true, true), contact(9, 4.0, -0.5, true, false)],
    };
    assert_eq!(decode(&bytes).unwrap(), expect);
    assert_eq!(expect.encode(), bytes);
}

#[test]
fn round_trips_random_frames() {
    let mut seed = 0x1234_5678u64;
    let mut rng = move || {
        seed = seed.wrapping_mul(6364136223846793005).wrapping_add(1442695040888963407);
        (seed >> 33) as u32
    };
    for _ in 0..500 {
        let seq = rng();
        let scan = rng();
        let button = rng() & 1 == 0;
        let n = rng() as usize % (MAX_CONTACTS + 1);
        let mut contacts = Vec::new();
        for _ in 0..n {
            let id = rng() as u8;
            let x = f32::from_bits((rng() >> 8) << 8) / 256.0;
            let y = f32::from_bits((rng() >> 8) << 8) / 256.0;
            let tip = rng() & 1 == 0;
            let confidence = rng() & 1 == 0;
            if x.is_finite() && y.is_finite() {
                contacts.push(contact(id, x, y, tip, confidence));
            }
        }
        let f = Frame { seq, scan_time_100us: scan, button, contacts };
        assert_eq!(decode(&f.encode()).unwrap(), f);
    }
}

#[test]
fn tracker_reports_a_gap_after_a_skip() {
    let mut t = SequenceTracker::new();
    assert_eq!(t.classify(1), SeqClass::Forward);
    assert_eq!(t.classify(5), SeqClass::ForwardAfterGap { lost: 3 });
    assert_eq!(t.classify(5), SeqClass::Duplicate);
    assert_eq!(t.classify(6), SeqClass::Forward);
}

#[test]
fn decode_errors_describe_themselves() {
    assert_eq!(DecodeError::TooShort.describe(), "packet shorter than its declared frame");
    assert_eq!(DecodeError::BadMagic.describe(), "bad magic (expected \"ATP1\")");
    assert_eq!(DecodeError::UnknownFlag { at: 7 }.describe(), "unknown/reserved flag bits set at byte 7");
    assert_eq!(DecodeError::BadContactCount(11).describe(), "contact count 11 out of range");
    assert_eq!(DecodeError::NonFiniteCoordinate { id: 3 }.describe(), "non-finite coordinate for contact id 3");
}
