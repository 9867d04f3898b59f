use macos_trackpad_companion::text::{concat_str, i64_decimal, u64_decimal, u64_hex, PathSet};

#[test]
fn numbers_render_in_decimal_and_hex() {
    assert_eq!(u64_decimal(0), "0");
    assert_eq!(u64_decimal(1_234_567), "1234567");
    assert_eq!(u64_decimal(u64::MAX), "18446744073709551615");
    assert_eq!(i64_decimal(-42), "-42");
    assert_eq!(i64_decimal(i64::MIN), "-9223372036854775808");
    assert_eq!(u64_hex(0), "0");
    assert_eq!(u64_hex(0x1000000), "1000000");
    assert_eq!(u64_hex(0xdead_beef), "deadbeef");
}

#[test]
fn strings_concatenate() {
    assert_eq!(concat_str("待保存：", "3"), "待保存：3");
    assert_eq!(concat_str("", ""), "");
}

#[test]
fn path_sets_hold_each_path_once() {
    let mut s = PathSet::new();
    assert!(s.is_empty());
    s.insert("a.b".to_string());
    s.insert("a.b".to_string());
    s.insert("c".to_string());
    assert_eq!(s.len(), 2);
    assert!(s.contains("a.b"));
    assert!(!s.contains("a"));
    let t = s.clone();
    s.clear();
    assert!(s.is_empty());
    assert_eq!(t.len(), 2);
}
