use macos_trackpad_companion::config::{
    collect_explicit_paths, default_path_with, expand_tilde_with, join_path_text, listen_address, log_level, Config,
    EnableError, ListenAddress, ListenError,
    EnableRepr, GestureEnable, HapticSetting, Net, SwipeBackend, explicit_paths,
};
use macos_trackpad_companion::macos_preferences::{
    merge_policy, normalize, PreferenceValue, RawTrackpadPreferences, ScalarPolicy, SyncReport,
};
use macos_trackpad_companion::text::PathSet;
use macos_trackpad_companion::toml_doc::{TomlEntry, TomlValue};

fn leaf(key: &str) -> TomlEntry {
    TomlEntry { key: key.to_string(), value: TomlValue::Boolean(true) }
}

fn table(key: &str, entries: Vec<TomlEntry>) -> TomlEntry {
    TomlEntry { key: key.to_string(), value: TomlValue::Table(entries) }
}

fn ids(list: &[&str]) -> Vec<String> {
    list.iter().map(|s| s.to_string()).collect()
}

fn parse(source: &str) -> toml::Value {
    toml::from_str(source).unwrap()
}

/// The written `enable` value at `path`, decided by the library.
fn enable_at(doc: &toml::Value, path: &[&str]) -> Result<GestureEnable, EnableError> {
    let mut v = doc;
    for key in path {
        v = v.get(key).unwrap();
    }
    let list = |key: &str| {
        v.get(key).map(|items| items.as_array().unwrap().iter().map(|i| i.as_str().unwrap().to_string()).collect())
    };
    let repr = match v {
        toml::Value::String(s) => EnableRepr::Text(s.clone()),
        _ => EnableRepr::Table { only: list("only"), except: list("except") },
    };
    GestureEnable::from_repr(repr)
}


#[test]
fn empty_input_yields_defaults() {
    let cfg = Config::default();
    assert_eq!(f64::from_bits(cfg.cursor.sensitivity_bits), 28.0);
    assert_eq!(f64::from_bits(cfg.cursor.accel_exponent_bits), 1.35);
    assert_eq!(f64::from_bits(cfg.cursor.accel_ref_bits), 70.0);
    assert_eq!(f64::from_bits(cfg.scroll.sensitivity_bits), 20.0);
    assert!(cfg.scroll.natural);
    assert!(cfg.scroll.enable);
    assert!(cfg.scroll.horizontal);
    assert_eq!(cfg.gestures.tap_to_click, GestureEnable::On);
    assert_eq!(cfg.gestures.secondary_click, GestureEnable::On);
    assert_eq!(cfg.gestures.smart_zoom, GestureEnable::On);
    assert_eq!(cfg.gestures.dictionary_lookup, GestureEnable::On);
    assert_eq!(cfg.gestures.right_edge_swipe, GestureEnable::On);
    assert_eq!(cfg.gestures.pinch.enable, GestureEnable::On);
    assert_eq!(cfg.gestures.swipe.horizontal.backend, SwipeBackend::Synthetic);
    assert_eq!(cfg.gestures.press_and_hold_drag.enable, GestureEnable::Off);
    assert_eq!(cfg.macos.haptic_feedback, HapticSetting::Auto);
}

#[test]
fn enable_string_forms() {
    let doc = parse(
        r#"
            [gestures.pinch]
            enable = "off"
            [gestures.rotate]
            enable = "on"
        "#,
    );
    assert_eq!(enable_at(&doc, &["gestures", "pinch", "enable"]), Ok(GestureEnable::Off));
    assert_eq!(enable_at(&doc, &["gestures", "rotate", "enable"]), Ok(GestureEnable::On));
}

#[test]
fn enable_only_table() {
    let doc = parse(
        r#"
            [gestures.pinch]
            enable = { only = ["com.apple.Safari", "com.apple.Photos"] }
        "#,
    );
    assert_eq!(
        enable_at(&doc, &["gestures", "pinch", "enable"]),
        Ok(GestureEnable::Only(vec!["com.apple.Safari".into(), "com.apple.Photos".into()]))
    );
}

#[test]
fn enable_except_table() {
    let doc = parse(
        r#"
            [gestures.rotate]
            enable = { except = ["com.apple.Terminal"] }
        "#,
    );
    assert_eq!(
        enable_at(&doc, &["gestures", "rotate", "enable"]),
        Ok(GestureEnable::Except(vec!["com.apple.Terminal".into()]))
    );
}

#[test]
fn press_and_hold_drag_is_opt_in() {
    assert_eq!(Config::default().gestures.press_and_hold_drag.enable, GestureEnable::Off);
    let doc = parse(
        r#"
            [gestures.press_and_hold_drag]
            enable = "on"
        "#,
    );
    assert_eq!(enable_at(&doc, &["gestures", "press_and_hold_drag", "enable"]), Ok(GestureEnable::On));
}

#[test]
fn enable_only_and_except_is_error() {
    let doc = parse(
        r#"
            [gestures.pinch]
            enable = { only = ["a"], except = ["b"] }
        "#,
    );
    assert_eq!(enable_at(&doc, &["gestures", "pinch", "enable"]), Err(EnableError::OnlyAndExcept));
    let empty = EnableRepr::Table { only: None, except: None };
    assert_eq!(GestureEnable::from_repr(empty), Err(EnableError::MissingList));
}

#[test]
fn enable_unknown_string_is_error() {
    let doc = parse(
        r#"
            [gestures.pinch]
            enable = "maybe"
        "#,
    );
    assert_eq!(
        enable_at(&doc, &["gestures", "pinch", "enable"]),
        Err(EnableError::UnknownText("maybe".to_string()))
    );
}

#[test]
fn net_defaults_and_overrides() {
    let net = Net::default();
    assert_eq!(net.port, 4242);
    assert!(net.listen_ip.is_none());
    assert!(net.token.is_none());

    let mut net = Net::default();
    net.apply_overrides(Some(5000), Some("127.0.0.1".to_string()), None);
    assert_eq!(net.listen_ip.as_deref(), Some("127.0.0.1"));
    assert_eq!(net.port, 5000);
    assert!(net.token.is_none());
    net.apply_overrides(None, None, Some("s3cret".to_string()));
    assert_eq!(net.port, 5000);
    assert_eq!(net.listen_ip.as_deref(), Some("127.0.0.1"));
    assert_eq!(net.token.as_deref(), Some("s3cret"));
}

#[test]
fn parse_str_tracks_explicit_leaf_fields() {
    let source = r#"
            [scroll]
            natural = false
            enable = false
            horizontal = false
            [gestures]
            tap_to_click = "off"
            [macos]
            sync_system_settings = false
            haptic_feedback = "off"
            "#;
    let mut cfg = Config::default();
    cfg.explicit = explicit_paths(source).unwrap();
    assert!(cfg.has_explicit("scroll.natural"));
    assert!(cfg.has_explicit("scroll.enable"));
    assert!(cfg.has_explicit("scroll.horizontal"));
    assert!(cfg.has_explicit("gestures.tap_to_click"));
    assert!(cfg.has_explicit("macos.sync_system_settings"));
    assert!(cfg.has_explicit("macos.haptic_feedback"));
    assert!(!cfg.has_explicit("scroll.sensitivity"));
    assert!(!cfg.has_explicit("scroll"));
}

#[test]
fn explicit_paths_of_nested_tables_are_dotted() {
    let tree = TomlValue::Table(vec![table(
        "gestures",
        vec![table("pinch", vec![leaf("enable")]), table("swipe", vec![table("vertical", vec![leaf("backend")])])],
    )]);
    let mut paths = PathSet::new();
    collect_explicit_paths(&tree, "", &mut paths);
    assert!(paths.contains("gestures.pinch.enable"));
    assert!(paths.contains("gestures.swipe.vertical.backend"));
    assert_eq!(paths.len(), 2);
}

#[test]
fn tilde_expands_against_home() {
    assert_eq!(expand_tilde_with("~", Some("/Users/me")), "/Users/me");
    assert_eq!(expand_tilde_with("~/cfg.toml", Some("/Users/me")), "/Users/me/cfg.toml");
    assert_eq!(expand_tilde_with("~/cfg.toml", Some("/")), "/cfg.toml");
    assert_eq!(expand_tilde_with("~other/x", Some("/Users/me")), "~other/x");
    assert_eq!(expand_tilde_with("~/x", None), "~/x");
    assert_eq!(expand_tilde_with("~/x", Some("")), "~/x");
    assert_eq!(expand_tilde_with("/etc/x", Some("/Users/me")), "/etc/x");
}

#[test]
fn default_config_path_follows_xdg_then_home() {
    assert_eq!(
        default_path_with(Some("/xdg"), Some("/Users/me")),
        "/xdg/macos-trackpad-companion/config.toml"
    );
    assert_eq!(
        default_path_with(Some(""), Some("/Users/me")),
        "/Users/me/.config/macos-trackpad-companion/config.toml"
    );
    assert_eq!(
        default_path_with(None, Some("/Users/me/")),
        "/Users/me/.config/macos-trackpad-companion/config.toml"
    );
    assert_eq!(default_path_with(None, None), ".config/macos-trackpad-companion/config.toml");
    assert_eq!(join_path_text("/a", "/b"), "/b");
}

#[test]
fn verbosity_overrides_the_configured_level() {
    assert_eq!(log_level(0, "warn"), "warn");
    assert_eq!(log_level(1, "warn"), "debug");
    assert_eq!(log_level(3, "warn"), "trace");
}

#[test]
fn the_listener_binds_by_token_and_address() {
    assert_eq!(listen_address(false, None), Ok(ListenAddress::Loopback));
    assert_eq!(listen_address(true, None), Ok(ListenAddress::AllInterfaces));
    assert_eq!(listen_address(false, Some(true)), Ok(ListenAddress::Configured));
    assert_eq!(listen_address(false, Some(false)), Err(ListenError::NonLoopbackWithoutToken));
    assert_eq!(listen_address(true, Some(false)), Ok(ListenAddress::Configured));
}

#[test]
fn only_a_non_empty_token_counts() {
    let mut net = Net::default();
    assert!(net.web_enabled && net.phone_enabled);
    assert_eq!(net.configured_token(), None);
    net.token = Some(String::new());
    assert_eq!(net.configured_token(), None);
    net.token = Some("s3cret".to_string());
    assert_eq!(net.configured_token(), Some("s3cret"));
}

#[test]
fn a_table_form_enable_is_explicit_and_wins_the_merge() {
    let source = "[gestures.pinch]\nenable = { only = [\"com.apple.Safari\"] }\n";
    let doc = parse(source);
    let mut cfg = Config::default();
    cfg.gestures.pinch.enable = enable_at(&doc, &["gestures", "pinch", "enable"]).unwrap();
    cfg.explicit = explicit_paths(source).unwrap();
    assert!(cfg.has_explicit("gestures.pinch.enable"));
    assert!(!cfg.has_explicit("gestures.pinch.enable.only"));
    let raw = RawTrackpadPreferences::from_pairs(&[("TrackpadPinch", PreferenceValue::Integer(0))]);
    let scalars =
        ScalarPolicy { cursor_sensitivity: None, cursor_accel_exponent: None, scroll_sensitivity: None, unsupported: Vec::new() };
    let policy = normalize(&raw, scalars);
    assert_eq!(policy.pinch, Some(false));
    let mut report = SyncReport::new(true);
    merge_policy(&mut cfg, &policy, &mut report);
    assert_eq!(cfg.gestures.pinch.enable, GestureEnable::Only(vec!["com.apple.Safari".to_string()]));
    assert_eq!(report.explicit_overrides, vec!["gestures.pinch.enable".to_string()]);
    assert!(report.applied.is_empty());
}

#[test]
fn explicit_paths_record_table_enables_under_their_own_key() {
    let tree = TomlValue::Table(vec![table(
        "gestures",
        vec![
            table("pinch", vec![table("enable", vec![leaf("only")])]),
            table("rotate", vec![leaf("gain")]),
        ],
    )]);
    let mut paths = PathSet::new();
    collect_explicit_paths(&tree, "", &mut paths);
    assert!(paths.contains("gestures.pinch.enable"));
    assert!(paths.contains("gestures.rotate.gain"));
    assert!(!paths.contains("gestures.pinch.enable.only"));
    assert_eq!(paths.len(), 2);
}

#[test]
fn explicit_paths_come_from_the_toml_text() {
    let paths = explicit_paths("[cursor]\nsensitivity = 30.0\n[gestures.rotate]\nenable = \"off\"\n").unwrap();
    assert!(paths.contains("cursor.sensitivity"));
    assert!(paths.contains("gestures.rotate.enable"));
    assert_eq!(paths.len(), 2);
    assert!(explicit_paths("[cursor\nsensitivity = ").is_none());
    assert!(explicit_paths("").unwrap().is_empty());
}
