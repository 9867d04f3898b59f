use macos_trackpad_companion::report::{decode, read_bits, read_bits_at, BitField, ContactBitFields, Layout};

fn fake_layout() -> Layout {
    Layout {
        report_id: 0x01,
        input_mode_report_id: None,
        contact_slots: 5,
        bytes_per_contact: 6,
        fingers_offset: 1,
        fingers_bit_offset: 8,
        scan_time_offset: 31,
        contact_count_offset: 33,
        button_offset: 34,
        button_bit: 0,
        logical_x_max: 3936,
        logical_y_max: 2424,
        physical_x_max_mm_bits: 65.0f64.to_bits(),
        physical_y_max_mm_bits: 40.0f64.to_bits(),
        total_payload_bytes: 35,
        contact_fields: None,
        scan_time_field: None,
        contact_count_field: None,
        button_field: None,
    }
}

fn to_mm(px: i32, logical_max: i32, physical_bits: u64) -> f64 {
    px as f64 * (f64::from_bits(physical_bits) / logical_max as f64)
}

fn put(buf: &mut [u8], offset: usize, width: u8, value: u64) {
    for i in 0..width as usize {
        if (value >> i) & 1 != 0 {
            buf[(offset + i) / 8] |= 1 << ((offset + i) % 8);
        }
    }
}

#[test]
fn decodes_two_contacts() {
    let layout = fake_layout();
    let mut buf = vec![0u8; 35];
    buf[0] = 0x01;
    buf[1] = 0x03;
    buf[2] = 7;
    buf[3..5].copy_from_slice(&1968u16.to_le_bytes());
    buf[5..7].copy_from_slice(&1212u16.to_le_bytes());
    buf[7] = 0x03;
    buf[8] = 8;
    buf[9..11].copy_from_slice(&2952u16.to_le_bytes());
    buf[11..13].copy_from_slice(&606u16.to_le_bytes());
    buf[31..33].copy_from_slice(&0x1234u16.to_le_bytes());
    buf[33] = 2;
    buf[34] = 0x01;

    let frame = decode(&layout, &buf).expect("decode");
    assert_eq!(frame.contacts.len(), 2);
    assert_eq!(frame.contacts[0].id, 7);
    let x = to_mm(frame.contacts[0].x, layout.logical_x_max, layout.physical_x_max_mm_bits);
    let y = to_mm(frame.contacts[0].y, layout.logical_y_max, layout.physical_y_max_mm_bits);
    assert!((x - 32.5).abs() < 0.05, "{}", x);
    assert!((y - 20.0).abs() < 0.05, "{}", y);
    assert_eq!(frame.scan_time_100us, 0x1234);
    assert!(frame.button);
}

#[test]
fn decodes_bit_packed_contact_fields_from_descriptor() {
    let layout = Layout {
        report_id: 1,
        input_mode_report_id: None,
        contact_slots: 2,
        bytes_per_contact: 4,
        fingers_offset: 1,
        fingers_bit_offset: 8,
        scan_time_offset: 9,
        contact_count_offset: 11,
        button_offset: 12,
        button_bit: 0,
        logical_x_max: 4095,
        logical_y_max: 4095,
        physical_x_max_mm_bits: 40.0f64.to_bits(),
        physical_y_max_mm_bits: 30.0f64.to_bits(),
        total_payload_bytes: 13,
        contact_fields: Some(ContactBitFields {
            stride_bits: 30,
            tip: BitField { bit_offset: 0, bit_width: 1 },
            confidence: Some(BitField { bit_offset: 1, bit_width: 1 }),
            id: BitField { bit_offset: 2, bit_width: 4 },
            x: BitField { bit_offset: 6, bit_width: 12 },
            y: BitField { bit_offset: 18, bit_width: 12 },
        }),
        scan_time_field: Some(BitField { bit_offset: 68, bit_width: 16 }),
        contact_count_field: Some(BitField { bit_offset: 84, bit_width: 4 }),
        button_field: Some(BitField { bit_offset: 88, bit_width: 1 }),
    };
    let mut buf = vec![0u8; 13];
    buf[0] = 1;
    put(&mut buf, 8, 1, 1);
    put(&mut buf, 9, 1, 1);
    put(&mut buf, 10, 4, 5);
    put(&mut buf, 14, 12, 2048);
    put(&mut buf, 26, 12, 1024);
    put(&mut buf, 38, 1, 1);
    put(&mut buf, 39, 1, 0);
    put(&mut buf, 40, 4, 9);
    put(&mut buf, 44, 12, 3072);
    put(&mut buf, 56, 12, 2048);
    put(&mut buf, 68, 16, 0x1234);
    put(&mut buf, 84, 4, 2);
    put(&mut buf, 88, 1, 1);

    let frame = decode(&layout, &buf).expect("decode bit-packed report");
    assert_eq!(frame.contacts.len(), 2);
    assert_eq!(frame.contacts[0].id, 5);
    assert!(frame.contacts[0].tip && frame.contacts[0].confidence);
    assert_eq!(frame.contacts[0].x, 2048);
    assert_eq!(frame.contacts[1].id, 9);
    assert!(frame.contacts[1].tip && !frame.contacts[1].confidence);
    assert_eq!(frame.contacts[1].y, 2048);
    assert_eq!(frame.scan_time_100us, 0x1234);
    assert!(frame.button);
}

#[test]
fn reports_of_the_wrong_id_or_length_are_refused() {
    let layout = fake_layout();
    let mut buf = vec![0u8; 35];
    buf[0] = 0x02;
    assert!(decode(&layout, &buf).is_none());
    buf[0] = 0x01;
    assert!(decode(&layout, &buf[..34]).is_none());
    let empty = decode(&layout, &buf).expect("no contacts");
    assert!(empty.contacts.is_empty() && !empty.button);
}

#[test]
fn bit_reads_are_little_endian_and_bounded() {
    let report = [0b1010_0110u8, 0xff];
    assert_eq!(read_bits_at(&report, 1, 3), Some(0b011));
    assert_eq!(read_bits_at(&report, 4, 8), Some(0xfa));
    assert_eq!(read_bits_at(&report, 0, 0), None);
    assert_eq!(read_bits_at(&report, 0, 65), None);
    assert_eq!(read_bits_at(&report, 10, 7), None);
    assert_eq!(read_bits(&report, BitField { bit_offset: 8, bit_width: 8 }), Some(0xff));
}
