use macos_trackpad_companion::config::{Config, GestureEnable, HapticSetting};
use macos_trackpad_companion::macos_preferences::{
    apply_policy, merge_policy, normalize, policy_for_mode, Expected, PrefKey, PreferenceConflict,
    PreferenceValue, RawTrackpadPreferences, ScalarPolicy, SyncReport, UnsupportedPreference,
    FALLBACK_DOMAIN, GLOBAL_DOMAIN, PRIMARY_DOMAIN,
};

fn no_scalars() -> ScalarPolicy {
    ScalarPolicy {
        cursor_sensitivity: None,
        cursor_accel_exponent: None,
        scroll_sensitivity: None,
        unsupported: Vec::new(),
    }
}

fn has_message(entries: &[UnsupportedPreference], text: &str) -> bool {
    entries.iter().any(|e| e.message().is_some_and(|m| m.contains(text)))
}

fn explicit(cfg: &mut Config, path: &str) {
    cfg.explicit.insert(path.to_string());
}

#[test]
fn normalize_known_values_and_keep_unknown_enums() {
    let raw = RawTrackpadPreferences::from_pairs(&[
        ("ActuateDetents", PreferenceValue::Integer(1)),
        ("Clicking", PreferenceValue::Integer(0)),
        ("TrackpadRightClick", PreferenceValue::Integer(1)),
        ("TrackpadMomentumScroll", PreferenceValue::Integer(0)),
        ("TrackpadFourFingerHorizSwipeGesture", PreferenceValue::Integer(2)),
        ("TrackpadFourFingerVertSwipeGesture", PreferenceValue::Integer(7)),
        ("HIDScrollZoomModifierMask", PreferenceValue::Integer(262_144)),
    ]);
    let policy = normalize(&raw, no_scalars());
    assert_eq!(policy.tap_to_click, Some(false));
    assert_eq!(policy.haptic_feedback, Some(true));
    assert_eq!(policy.secondary_click, Some(true));
    assert_eq!(policy.momentum_scroll, Some(false));
    assert_eq!(policy.horizontal_swipe, Some(true));
    assert_eq!(policy.vertical_swipe, None);
    assert_eq!(policy.modifier_zoom_mask, Some(262_144));
    assert!(policy.unsupported.contains(&UnsupportedPreference::OutOfRange {
        key: PrefKey::TrackpadFourFingerVertSwipeGesture,
        value: 7,
        expected: Expected::ZeroOrTwo,
    }));
    assert!(has_message(&policy.unsupported, "TrackpadFourFingerVertSwipeGesture=7"));
}

#[test]
fn merge_respects_explicit_toml_and_keeps_three_finger_drag_lock() {
    let mut cfg = Config::default();
    cfg.scroll.natural = true;
    explicit(&mut cfg, "scroll.natural");
    cfg.gestures.pinch.enable = GestureEnable::On;
    explicit(&mut cfg, "gestures.pinch.enable");
    let raw = RawTrackpadPreferences::from_pairs(&[
        ("ActuateDetents", PreferenceValue::Integer(1)),
        ("Clicking", PreferenceValue::Integer(0)),
        ("TrackpadPinch", PreferenceValue::Integer(0)),
        ("DragLock", PreferenceValue::Integer(0)),
        ("com.apple.swipescrolldirection", PreferenceValue::Integer(1)),
    ]);
    let policy = normalize(&raw, no_scalars());
    let mut report = SyncReport::new(true);
    merge_policy(&mut cfg, &policy, &mut report);
    assert!(cfg.scroll.natural);
    assert_eq!(cfg.macos.haptic_feedback, HapticSetting::On);
    assert_eq!(cfg.gestures.pinch.enable, GestureEnable::On);
    assert_eq!(cfg.gestures.tap_to_click, GestureEnable::Off);
    assert_eq!(cfg.gestures.three_finger_drag.release_delay_ms, 500);
    assert!(report.explicit_overrides.contains(&"scroll.natural".to_string()));
    assert!(report.explicit_overrides.contains(&"gestures.pinch.enable".to_string()));
}

#[test]
fn modifier_mask_keeps_known_bits_and_reports_unknown_bits() {
    let raw = RawTrackpadPreferences::from_pairs(&[(
        "HIDScrollZoomModifierMask",
        PreferenceValue::Integer(0x0104_0000),
    )]);
    let policy = normalize(&raw, no_scalars());
    assert_eq!(policy.modifier_zoom_mask, Some(0x0004_0000));
    assert!(policy
        .unsupported
        .contains(&UnsupportedPreference::UnknownModifierBits { bits: 0x100_0000 }));
    assert!(has_message(&policy.unsupported, "unknown bits=0x1000000"));

    let negative = RawTrackpadPreferences::from_pairs(&[(
        "HIDScrollZoomModifierMask",
        PreferenceValue::Integer(-1),
    )]);
    let policy = normalize(&negative, no_scalars());
    assert_eq!(policy.modifier_zoom_mask, None);
    assert!(policy
        .unsupported
        .contains(&UnsupportedPreference::NegativeModifierMask { value: -1 }));
    assert!(has_message(&policy.unsupported, "negative"));
}

#[test]
fn explicit_toml_sensitivity_wins_over_system_scaling() {
    let mut cfg = Config::default();
    cfg.cursor.sensitivity_bits = 41.0f64.to_bits();
    explicit(&mut cfg, "cursor.sensitivity");
    cfg.scroll.sensitivity_bits = 11.0f64.to_bits();
    explicit(&mut cfg, "scroll.sensitivity");
    let raw = RawTrackpadPreferences::new();
    let scalars = ScalarPolicy {
        cursor_sensitivity: Some(56.0f64.to_bits()),
        cursor_accel_exponent: None,
        scroll_sensitivity: Some(40.0f64.to_bits()),
        unsupported: Vec::new(),
    };
    let policy = normalize(&raw, scalars);
    let mut report = SyncReport::new(true);
    merge_policy(&mut cfg, &policy, &mut report);
    assert_eq!(f64::from_bits(cfg.cursor.sensitivity_bits), 41.0);
    assert_eq!(f64::from_bits(cfg.scroll.sensitivity_bits), 11.0);
    assert!(report.explicit_overrides.contains(&"cursor.sensitivity".to_string()));
    assert!(report.explicit_overrides.contains(&"scroll.sensitivity".to_string()));
}

#[test]
fn explicit_tap_to_click_override_wins_over_clicking_off() {
    let mut cfg = Config::default();
    cfg.gestures.tap_to_click = GestureEnable::On;
    explicit(&mut cfg, "gestures.tap_to_click");
    let raw = RawTrackpadPreferences::from_pairs(&[("Clicking", PreferenceValue::Integer(0))]);
    let policy = normalize(&raw, no_scalars());
    let mut report = SyncReport::new(true);
    merge_policy(&mut cfg, &policy, &mut report);
    assert_eq!(cfg.gestures.tap_to_click, GestureEnable::On);
    assert!(report.explicit_overrides.contains(&"gestures.tap_to_click".to_string()));
}

#[test]
fn missing_preference_snapshot_is_a_valid_noop() {
    let mut cfg = Config::default();
    let policy = normalize(&RawTrackpadPreferences::new(), no_scalars());
    let mut report = SyncReport::new(true);
    merge_policy(&mut cfg, &policy, &mut report);
    assert_eq!(report.applied.len(), 0);
    assert!(report.unsupported.is_empty());
    assert_eq!(f64::from_bits(cfg.cursor.sensitivity_bits), 28.0);
    assert_eq!(f64::from_bits(cfg.scroll.sensitivity_bits), 20.0);
}

#[test]
fn virtual_input_keeps_tap_to_click_default() {
    let mut cfg = Config::default();
    let raw = RawTrackpadPreferences::from_pairs(&[("Clicking", PreferenceValue::Integer(0))]);
    let policy = policy_for_mode(&raw, no_scalars(), true);
    let mut report = SyncReport::new(true);
    merge_policy(&mut cfg, &policy, &mut report);
    assert_eq!(cfg.gestures.tap_to_click, GestureEnable::On);
}

#[test]
fn virtual_input_respects_explicit_tap_to_click_off() {
    let mut cfg = Config::default();
    cfg.gestures.tap_to_click = GestureEnable::Off;
    explicit(&mut cfg, "gestures.tap_to_click");
    let raw = RawTrackpadPreferences::from_pairs(&[("Clicking", PreferenceValue::Integer(0))]);
    let policy = policy_for_mode(&raw, no_scalars(), true);
    let mut report = SyncReport::new(true);
    merge_policy(&mut cfg, &policy, &mut report);
    assert_eq!(cfg.gestures.tap_to_click, GestureEnable::Off);
}

#[test]
fn booleans_count_as_zero_and_one_and_floats_are_not_integers() {
    assert_eq!(PreferenceValue::Boolean(true).as_i64(), Some(1));
    assert_eq!(PreferenceValue::Boolean(false).as_i64(), Some(0));
    assert_eq!(PreferenceValue::Float(1.0f64.to_bits()).as_i64(), None);
    let raw = RawTrackpadPreferences::from_pairs(&[
        ("Clicking", PreferenceValue::Float(1.0f64.to_bits())),
        ("TrackpadThreeFingerTapGesture", PreferenceValue::Integer(2)),
        ("ForceSuppressed", PreferenceValue::Boolean(true)),
    ]);
    let policy = normalize(&raw, no_scalars());
    assert_eq!(policy.tap_to_click, None);
    assert_eq!(policy.dictionary_lookup, Some(true));
    assert_eq!(
        policy.unsupported,
        vec![
            UnsupportedPreference::NotAnInteger {
                key: PrefKey::Clicking,
                value: PreferenceValue::Float(1.0f64.to_bits()),
                expected: Expected::ZeroOrOne,
            },
            UnsupportedPreference::Unmapped {
                key: PrefKey::ForceSuppressed,
                value: PreferenceValue::Boolean(true),
            },
        ]
    );
}

#[test]
fn natural_scroll_prefers_the_global_key() {
    let raw = RawTrackpadPreferences::from_pairs(&[
        ("com.apple.swipescrolldirection", PreferenceValue::Integer(0)),
        ("TrackpadScrollNatural", PreferenceValue::Integer(1)),
    ]);
    assert_eq!(normalize(&raw, no_scalars()).natural_scroll, Some(false));
    let raw = RawTrackpadPreferences::from_pairs(&[("TrackpadScrollNatural", PreferenceValue::Integer(1))]);
    assert_eq!(normalize(&raw, no_scalars()).natural_scroll, Some(true));
}

#[test]
fn domains_are_recorded_with_conflicts_and_primary_wins() {
    let mut raw = RawTrackpadPreferences::new();
    raw.record_trackpad_value(
        PrefKey::Clicking,
        Some(PreferenceValue::Integer(1)),
        Some(PreferenceValue::Integer(0)),
    );
    raw.record_trackpad_value(PrefKey::Dragging, None, Some(PreferenceValue::Integer(1)));
    raw.record_global_value(PrefKey::GlobalNaturalScroll, Some(PreferenceValue::Boolean(false)));
    raw.record_global_value(PrefKey::GlobalTrackpadScaling, None);
    assert_eq!(raw.value_count(), 3);
    assert_eq!(raw.value("Clicking"), Some(PreferenceValue::Integer(1)));
    assert_eq!(raw.source("Clicking"), Some(PRIMARY_DOMAIN));
    assert_eq!(raw.source("Dragging"), Some(FALLBACK_DOMAIN));
    assert_eq!(raw.source("com.apple.swipescrolldirection"), Some(GLOBAL_DOMAIN));
    assert_eq!(raw.source("TrackpadPinch"), None);
    assert!(raw.trackpad_domain_available());
    assert!(raw.global_domain_available());
    assert_eq!(
        raw.conflicts(),
        &[PreferenceConflict {
            key: PrefKey::Clicking,
            primary: PreferenceValue::Integer(1),
            fallback: PreferenceValue::Integer(0),
        }]
    );
}

#[test]
fn a_disabled_sync_changes_nothing() {
    let mut cfg = Config::default();
    cfg.macos.sync_system_settings = false;
    let raw = RawTrackpadPreferences::from_pairs(&[("Clicking", PreferenceValue::Integer(0))]);
    let policy = normalize(&raw, no_scalars());
    let report = apply_policy(&mut cfg, &raw, &policy);
    assert!(!report.enabled);
    assert_eq!(cfg.gestures.tap_to_click, GestureEnable::On);
    assert!(report.applied.is_empty());
}

#[test]
fn an_enabled_sync_reports_what_it_applied() {
    let mut cfg = Config::default();
    let raw = RawTrackpadPreferences::from_pairs(&[
        ("Clicking", PreferenceValue::Integer(0)),
        ("TrackpadRotate", PreferenceValue::Integer(0)),
    ]);
    let policy = normalize(&raw, no_scalars());
    let report = apply_policy(&mut cfg, &raw, &policy);
    assert!(report.enabled);
    assert_eq!(report.raw_values, 2);
    assert_eq!(report.applied, vec!["gestures.tap_to_click".to_string(), "gestures.rotate.enable".to_string()]);
    assert_eq!(cfg.gestures.rotate.enable, GestureEnable::Off);
}

#[test]
fn unsupported_entries_read_as_report_lines() {
    let line = |u: UnsupportedPreference| u.message();
    assert_eq!(
        line(UnsupportedPreference::OutOfRange {
            key: PrefKey::TrackpadFourFingerVertSwipeGesture,
            value: 7,
            expected: Expected::ZeroOrTwo,
        })
        .as_deref(),
        Some("TrackpadFourFingerVertSwipeGesture=7 (expected 0/2)")
    );
    assert_eq!(
        line(UnsupportedPreference::NotAnInteger {
            key: PrefKey::Clicking,
            value: PreferenceValue::Unsupported,
            expected: Expected::ZeroOrOne,
        })
        .as_deref(),
        Some("Clicking=Unsupported (expected integer 0/1)")
    );
    assert_eq!(
        line(UnsupportedPreference::NegativeModifierMask { value: -1 }).as_deref(),
        Some("HIDScrollZoomModifierMask=-1 (negative)")
    );
    assert_eq!(
        line(UnsupportedPreference::UnknownModifierBits { bits: 0x100_0000 }).as_deref(),
        Some("HIDScrollZoomModifierMask unknown bits=0x1000000")
    );
    assert_eq!(
        line(UnsupportedPreference::NoKnownModifiers { value: 0x2_0000 }).as_deref(),
        Some("HIDScrollZoomModifierMask=131072 (no known Quartz modifiers)")
    );
    assert_eq!(
        line(UnsupportedPreference::Unmapped { key: PrefKey::DragLock, value: PreferenceValue::Integer(0) })
            .as_deref(),
        Some("DragLock=Integer(0)")
    );
    assert_eq!(
        line(UnsupportedPreference::Unmapped { key: PrefKey::DragLock, value: PreferenceValue::Boolean(true) })
            .as_deref(),
        Some("DragLock=Boolean(true)")
    );
    assert_eq!(
        line(UnsupportedPreference::ScalarNotFinite {
            key: PrefKey::GlobalTrackpadScaling,
            value: PreferenceValue::Float(f64::NAN.to_bits()),
        })
        .as_deref(),
        Some("com.apple.trackpad.scaling=Float(NaN) (expected finite number)")
    );
    assert_eq!(
        line(UnsupportedPreference::ScalarNotFinite {
            key: PrefKey::GlobalScrollwheelScaling,
            value: PreferenceValue::Float(f64::NEG_INFINITY.to_bits()),
        })
        .as_deref(),
        Some("com.apple.scrollwheel.scaling=Float(-inf) (expected finite number)")
    );
    assert_eq!(
        line(UnsupportedPreference::ScalarOutOfRange { key: PrefKey::GlobalTrackpadScaling, value_bits: 5.0f64.to_bits() }),
        None
    );
}

#[test]
fn explicit_drag_enables_win_over_system_dragging() {
    let mut cfg = Config::default();
    cfg.gestures.three_finger_drag.enable = GestureEnable::On;
    explicit(&mut cfg, "gestures.three_finger_drag.enable");
    cfg.gestures.one_finger_tap_drag.enable = GestureEnable::On;
    explicit(&mut cfg, "gestures.one_finger_tap_drag.enable");
    let raw = RawTrackpadPreferences::from_pairs(&[
        ("TrackpadThreeFingerDrag", PreferenceValue::Integer(0)),
        ("Dragging", PreferenceValue::Integer(0)),
    ]);
    let policy = normalize(&raw, no_scalars());
    let mut report = SyncReport::new(true);
    merge_policy(&mut cfg, &policy, &mut report);
    assert_eq!(cfg.gestures.three_finger_drag.enable, GestureEnable::On);
    assert_eq!(cfg.gestures.one_finger_tap_drag.enable, GestureEnable::On);
    assert!(report.explicit_overrides.contains(&"gestures.three_finger_drag.enable".to_string()));
    assert!(report.explicit_overrides.contains(&"gestures.one_finger_tap_drag.enable".to_string()));
    assert!(report.applied.is_empty());
}
