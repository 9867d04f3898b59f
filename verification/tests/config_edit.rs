use macos_trackpad_companion::config_edit::ensure_token;
use macos_trackpad_companion::toml_doc::{get_value, TomlEntry, TomlValue};
use macos_trackpad_companion::config_edit::{
    generate_pairing_token, hex_lower, parse_fragment, parse_i64, plan_set, scalar_value, split_dotted, token_configured,
    ScalarValue, SetError, SetPlan, TOKEN_BYTES,
};

#[test]
fn parses_scalar_values() {
    assert_eq!(scalar_value("true"), ScalarValue::Boolean(true));
    assert_eq!(scalar_value("false"), ScalarValue::Boolean(false));
    assert_eq!(scalar_value("28.5"), ScalarValue::Other);
    assert_eq!(scalar_value("on"), ScalarValue::Other);
    assert_eq!(scalar_value("-42"), ScalarValue::Integer(-42));
}

#[test]
fn generated_pairing_token_is_hex() {
    let token = generate_pairing_token().expect("random source");
    assert_eq!(token.len(), TOKEN_BYTES * 2);
    assert!(token.chars().all(|c| c.is_ascii_hexdigit() && !c.is_ascii_uppercase()));
    let other = generate_pairing_token().expect("random source");
    assert_ne!(token, other);
}

#[test]
fn hex_is_lowercase_two_digits_per_byte() {
    assert_eq!(hex_lower(&[0x00, 0x0f, 0xa5, 0xff]), "000fa5ff");
    assert_eq!(hex_lower(&[]), "");
}

#[test]
fn dotted_paths_split_into_non_empty_keys() {
    assert_eq!(split_dotted("cursor.sensitivity"), vec!["cursor".to_string(), "sensitivity".to_string()]);
    assert_eq!(split_dotted(".a..b."), vec!["a".to_string(), "b".to_string()]);
    assert!(split_dotted("..").is_empty());
    assert_eq!(split_dotted("größe.wert"), vec!["größe".to_string(), "wert".to_string()]);
}

#[test]
fn integers_parse_within_range() {
    assert_eq!(parse_i64(b"0"), Some(0));
    assert_eq!(parse_i64(b"+17"), Some(17));
    assert_eq!(parse_i64(b"-9223372036854775808"), Some(i64::MIN));
    assert_eq!(parse_i64(b"9223372036854775807"), Some(i64::MAX));
    assert_eq!(parse_i64(b"9223372036854775808"), None);
    assert_eq!(parse_i64(b""), None);
    assert_eq!(parse_i64(b"-"), None);
    assert_eq!(parse_i64(b"1_000"), None);
}

#[test]
fn set_plans_remove_a_zero_mask_and_write_the_rest() {
    assert_eq!(
        plan_set("scroll.modifier_zoom_mask", "0"),
        Ok(SetPlan::Remove(vec!["scroll".to_string(), "modifier_zoom_mask".to_string()]))
    );
    assert_eq!(
        plan_set("scroll.modifier_zoom_mask", "262144"),
        Ok(SetPlan::Write(
            vec!["scroll".to_string(), "modifier_zoom_mask".to_string()],
            ScalarValue::Integer(262_144)
        ))
    );
    assert_eq!(
        plan_set("scroll.natural", "false"),
        Ok(SetPlan::Write(vec!["scroll".to_string(), "natural".to_string()], ScalarValue::Boolean(false)))
    );
    assert_eq!(plan_set("...", "1"), Err(SetError::EmptyPath));
}

#[test]
fn tokens_count_as_configured_when_not_empty() {
    assert!(token_configured(Some("abc")));
    assert!(!token_configured(Some("")));
    assert!(!token_configured(None));
}

#[test]
fn ensure_token_writes_a_token_once() {
    let keys = vec!["net".to_string(), "token".to_string()];
    let mut root = TomlValue::Table(vec![TomlEntry {
        key: "log".to_string(),
        value: TomlValue::Table(vec![TomlEntry { key: "level".to_string(), value: TomlValue::String("info".to_string()) }]),
    }]);
    assert_eq!(ensure_token(&mut root), Ok(true));
    let token = match get_value(&root, &keys) {
        Some(TomlValue::String(t)) => t.clone(),
        other => panic!("no token written: {other:?}"),
    };
    assert_eq!(token.len(), 64);
    assert!(token.chars().all(|c| c.is_ascii_hexdigit()));
    assert_eq!(
        get_value(&root, &vec!["log".to_string(), "level".to_string()]),
        Some(&TomlValue::String("info".to_string()))
    );
    // A second call keeps the token.
    assert_eq!(ensure_token(&mut root), Ok(false));
    assert_eq!(get_value(&root, &keys), Some(&TomlValue::String(token)));
    // An empty token counts as none.
    let mut empty = TomlValue::Table(vec![TomlEntry {
        key: "net".to_string(),
        value: TomlValue::Table(vec![TomlEntry { key: "token".to_string(), value: TomlValue::String(String::new()) }]),
    }]);
    assert_eq!(ensure_token(&mut empty), Ok(true));
    assert!(matches!(get_value(&empty, &keys), Some(TomlValue::String(t)) if t.len() == 64));
}

#[test]
fn toml_fragments_parse_as_values() {
    assert_eq!(
        parse_fragment("{ only = [\"com.apple.Safari\"] }"),
        Some(TomlValue::Table(vec![TomlEntry {
            key: "only".to_string(),
            value: TomlValue::Array(vec![TomlValue::String("com.apple.Safari".to_string())]),
        }]))
    );
    assert_eq!(parse_fragment("[1, 2]"), Some(TomlValue::Array(vec![TomlValue::Integer(1), TomlValue::Integer(2)])));
    assert_eq!(parse_fragment("{ unclosed"), None);
}
