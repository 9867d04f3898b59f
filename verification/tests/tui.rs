use macos_trackpad_companion::config::{Config, GestureParameterProfile};
use macos_trackpad_companion::toml_doc::{TomlEntry, TomlValue};
use macos_trackpad_companion::tui::{adjust_setting, enable_toml, row_write, setting_text, setting_toml, Adjustment, RowWrite};
use macos_trackpad_companion::config::{GestureEnable, HapticSetting, SwipeBackend};
use macos_trackpad_companion::tui::{
    all_settings, backend_text, bool_text, cycle_backend, cycle_haptic, cycle_modifier_mask,
    enable_text, join_dotted, modifier_mask_text, step_release_delay, toggle_enable, Category,
    EditorAction, EditorKey, EditorState, Focus, Locale, SettingId, CATEGORIES,
};

#[test]
fn categories_follow_native_order_and_have_companion_extension() {
    assert_eq!(CATEGORIES[0], Category::PointAndClick);
    assert_eq!(CATEGORIES[1], Category::ScrollAndZoom);
    assert_eq!(CATEGORIES[2], Category::MoreGestures);
    assert!(Category::Companion.settings().contains(&SettingId::ThreeFingerDrag));
    assert!(Category::Companion.settings().contains(&SettingId::PersistentDragLock));
}

#[test]
fn language_switch_changes_labels() {
    assert_eq!(SettingId::TapToClick.label(Locale::English), "Tap to click");
    assert_eq!(SettingId::TapToClick.label(Locale::Chinese), "轻点来点按");
}

#[test]
fn hardware_only_rows_are_read_only() {
    let mut cfg = Config::default();
    let mut state = EditorState::new();
    state.selected = 1;
    assert!(state.selected_id().is_hardware_only());
    assert_eq!(adjust_setting(&mut cfg, state.selected_id(), true), Adjustment::ReadOnly);
    state.notice_read_only();
    assert!(state.changed.is_empty());
    assert!(state.status.contains("硬件") || state.status.contains("Hardware"));
}

#[test]
fn locale_toggles_and_labels_the_other_language() {
    let mut l = Locale::English;
    assert_eq!(l.language_label(), "中文");
    l.toggle();
    assert_eq!(l, Locale::Chinese);
    assert_eq!(l.language_label(), "English");
    l.toggle();
    assert_eq!(l, Locale::English);
}

#[test]
fn every_row_appears_once() {
    let all = all_settings();
    assert_eq!(all.len(), 35);
    for (i, a) in all.iter().enumerate() {
        for b in &all[i + 1..] {
            assert_ne!(a, b);
        }
    }
    assert_eq!(all[0], SettingId::CursorSensitivity);
    assert_eq!(all[34], SettingId::SyncSystemSettings);
}

#[test]
fn value_texts() {
    assert_eq!(enable_text(&GestureEnable::On, Locale::English), "On");
    assert_eq!(enable_text(&GestureEnable::Off, Locale::Chinese), "关闭");
    assert_eq!(enable_text(&GestureEnable::Only(vec!["a".into()]), Locale::English), "Only (…)");
    assert_eq!(enable_text(&GestureEnable::Except(vec![]), Locale::Chinese), "排除 (…)");
    assert_eq!(bool_text(true, Locale::Chinese), "打开");
    assert_eq!(backend_text(SwipeBackend::Notification, Locale::English), "Notification");
    assert_eq!(modifier_mask_text(0x0008_0000, Locale::English), "Option");
    assert_eq!(modifier_mask_text(0x0014_0000, Locale::Chinese), "0x140000");
}

#[test]
fn cycles_go_round() {
    let mut m = None;
    cycle_modifier_mask(&mut m, true);
    assert_eq!(m, Some(0x0004_0000));
    cycle_modifier_mask(&mut m, false);
    assert_eq!(m, None);
    cycle_modifier_mask(&mut m, false);
    assert_eq!(m, Some(0x0010_0000));
    let mut odd = Some(0x1234);
    cycle_modifier_mask(&mut odd, true);
    assert_eq!(odd, Some(0x0004_0000));

    let mut b = SwipeBackend::Synthetic;
    cycle_backend(&mut b, true);
    assert_eq!(b, SwipeBackend::Notification);
    cycle_backend(&mut b, true);
    assert_eq!(b, SwipeBackend::Off);
    cycle_backend(&mut b, true);
    assert_eq!(b, SwipeBackend::Synthetic);

    let mut h = HapticSetting::Auto;
    cycle_haptic(&mut h, false);
    assert_eq!(h, HapticSetting::Off);

    let mut e = GestureEnable::Only(vec!["com.example".into()]);
    toggle_enable(&mut e);
    assert_eq!(e, GestureEnable::Off);
    toggle_enable(&mut e);
    assert_eq!(e, GestureEnable::On);
}

#[test]
fn release_delay_steps_and_clamps() {
    assert_eq!(step_release_delay(500, true), 550);
    assert_eq!(step_release_delay(20, false), 0);
    assert_eq!(step_release_delay(1990, true), 2000);
    assert_eq!(step_release_delay(u64::MAX, false), 0);
}

#[test]
fn paths_join_with_dots() {
    assert_eq!(join_dotted(&SettingId::ReleaseDelay.path()), "gestures.three_finger_drag.release_delay_ms");
    assert_eq!(join_dotted(&SettingId::ClickPressure.path()), "");
}

#[test]
fn editor_navigation_and_change_tracking() {
    let mut s = EditorState::new();
    assert_eq!(s.status, "未修改");
    assert_eq!(s.on_key(EditorKey::Up), EditorAction::Stay);
    assert_eq!(s.selected, 6);
    assert_eq!(s.on_key(EditorKey::Down), EditorAction::Stay);
    assert_eq!(s.selected, 0);
    assert_eq!(s.on_key(EditorKey::Right), EditorAction::Adjust(true));
    s.mark_changed();
    assert_eq!(s.status, "待保存：1 项修改");
    s.mark_changed();
    assert_eq!(s.status, "待保存：1 项修改");
    assert_eq!(s.on_key(EditorKey::Quit), EditorAction::Stay);
    assert!(s.quit_pending);
    assert_eq!(s.on_key(EditorKey::Quit), EditorAction::Exit);
    assert_eq!(s.on_key(EditorKey::SwitchLanguage), EditorAction::Stay);
    assert_eq!(s.locale, Locale::English);
    assert_eq!(s.status, "中文");
    assert_eq!(s.on_key(EditorKey::SwitchFocus), EditorAction::Stay);
    assert_eq!(s.focus, Focus::Sidebar);
    assert_eq!(s.on_key(EditorKey::Up), EditorAction::Stay);
    assert_eq!(s.current_category(), Category::Companion);
    s.select_category(5);
    assert_eq!(s.current_category(), Category::ScrollAndZoom);
    s.mark_changed();
    assert_eq!(s.status, "2 unsaved change(s)");
    s.move_setting(-3);
    assert_eq!(s.selected, 8);
}

#[test]
fn rows_write_their_toml_values() {
    let mut cfg = Config::default();
    assert_eq!(setting_toml(&cfg, SettingId::TapToClick), TomlValue::String("on".to_string()));
    assert_eq!(setting_toml(&cfg, SettingId::PressAndHoldDrag), TomlValue::String("off".to_string()));
    assert_eq!(setting_toml(&cfg, SettingId::HapticFeedback), TomlValue::String("auto".to_string()));
    assert_eq!(setting_toml(&cfg, SettingId::CursorSensitivity), TomlValue::Float(28.0f64.to_bits()));
    assert_eq!(setting_toml(&cfg, SettingId::ReleaseDelay), TomlValue::Integer(500));
    assert_eq!(setting_toml(&cfg, SettingId::ModifierZoomMask), TomlValue::Integer(0));
    assert_eq!(setting_toml(&cfg, SettingId::VerticalBackend), TomlValue::String("Notification".to_string()));
    assert_eq!(setting_toml(&cfg, SettingId::QuietClick), TomlValue::String("unsupported".to_string()));
    assert_eq!(setting_toml(&cfg, SettingId::PinchGain), TomlValue::Float(1.0f64.to_bits()));
    assert_eq!(setting_toml(&cfg, SettingId::SurfaceWidth), TomlValue::Float(65.0f64.to_bits()));
    cfg.scroll.modifier_zoom_mask = Some(0x0008_0000);
    assert_eq!(setting_toml(&cfg, SettingId::ModifierZoomMask), TomlValue::Integer(0x0008_0000));
    assert_eq!(
        enable_toml(&GestureEnable::Only(vec!["com.apple.Safari".to_string()])),
        TomlValue::Table(vec![TomlEntry {
            key: "only".to_string(),
            value: TomlValue::Array(vec![TomlValue::String("com.apple.Safari".to_string())]),
        }])
    );
}

#[test]
fn rows_show_their_values() {
    let mut cfg = Config::default();
    assert_eq!(setting_text(&cfg, SettingId::NaturalScroll, Locale::English).as_deref(), Some("On"));
    assert_eq!(setting_text(&cfg, SettingId::HapticFeedback, Locale::Chinese).as_deref(), Some("自动"));
    assert_eq!(setting_text(&cfg, SettingId::ReleaseDelay, Locale::English).as_deref(), Some("500 ms"));
    assert_eq!(setting_text(&cfg, SettingId::ClickPressure, Locale::Chinese).as_deref(), Some("不可用"));
    assert_eq!(
        setting_text(&cfg, SettingId::ModifierZoomMask, Locale::English).as_deref(),
        Some("Default (Cmd/Ctrl)")
    );
    cfg.scroll.modifier_zoom_mask = Some(0x0012_0000);
    assert_eq!(setting_text(&cfg, SettingId::ModifierZoomMask, Locale::English).as_deref(), Some("0x120000"));
    assert_eq!(setting_text(&cfg, SettingId::CursorSensitivity, Locale::English), None);
    assert_eq!(setting_text(&cfg, SettingId::SurfaceWidth, Locale::English), None);
    assert_eq!(setting_text(&cfg, SettingId::ShiftScrollHorizontal, Locale::English).as_deref(), Some("Off"));
}

#[test]
fn adjusting_rows_steps_only_their_setting() {
    let mut cfg = Config::default();
    assert_eq!(adjust_setting(&mut cfg, SettingId::TapToClick, true), Adjustment::Changed);
    assert_eq!(cfg.gestures.tap_to_click, GestureEnable::Off);
    assert_eq!(cfg.gestures.secondary_click, GestureEnable::On);
    assert_eq!(adjust_setting(&mut cfg, SettingId::HapticFeedback, false), Adjustment::Changed);
    assert_eq!(cfg.macos.haptic_feedback, HapticSetting::Off);
    assert_eq!(adjust_setting(&mut cfg, SettingId::VerticalBackend, true), Adjustment::Changed);
    assert_eq!(cfg.gestures.swipe.vertical.backend, SwipeBackend::Off);
    assert_eq!(cfg.gestures.swipe.horizontal.backend, SwipeBackend::Synthetic);
    assert_eq!(adjust_setting(&mut cfg, SettingId::ReleaseDelay, true), Adjustment::Changed);
    assert_eq!(cfg.gestures.three_finger_drag.release_delay_ms, 550);
    assert_eq!(adjust_setting(&mut cfg, SettingId::ModifierZoomMask, true), Adjustment::Changed);
    assert_eq!(cfg.scroll.modifier_zoom_mask, Some(0x0004_0000));
    assert_eq!(adjust_setting(&mut cfg, SettingId::QuietClick, true), Adjustment::ReadOnly);
    assert_eq!(adjust_setting(&mut cfg, SettingId::PinchGain, true), Adjustment::Float);
    assert_eq!(adjust_setting(&mut cfg, SettingId::DynamicTransformCompat, true), Adjustment::Changed);
    assert!(cfg.gestures.dynamic_transform_compat);
    let before = cfg.cursor.sensitivity_bits;
    assert_eq!(adjust_setting(&mut cfg, SettingId::CursorSensitivity, true), Adjustment::Float);
    assert_eq!(cfg.cursor.sensitivity_bits, before);
}

#[test]
fn parameter_profile_cycles_and_serializes() {
    let mut cfg = Config::default();
    let mut editor = EditorState::new();
    editor.category = CATEGORIES.iter().position(|category| *category == Category::Companion).unwrap();
    editor.selected =
        Category::Companion.settings().iter().position(|id| *id == SettingId::ParameterProfile).unwrap();
    let id = editor.selected_id();
    assert_eq!(setting_text(&cfg, id, editor.locale).as_deref(), Some("原生"));
    assert_eq!(adjust_setting(&mut cfg, id, true), Adjustment::Changed);
    assert_eq!(cfg.gestures.parameter_profile, GestureParameterProfile::ChromiumOs);
    assert_eq!(setting_text(&cfg, id, editor.locale).as_deref(), Some("ChromiumOS（实验）"));
    assert_eq!(setting_toml(&cfg, id), TomlValue::String("chromium_os".to_string()));
    assert_eq!(adjust_setting(&mut cfg, id, false), Adjustment::Changed);
    assert_eq!(cfg.gestures.parameter_profile, GestureParameterProfile::Native);
}

#[test]
fn persistent_drag_lock_toggles_and_serializes() {
    let mut cfg = Config::default();
    let mut editor = EditorState::new();
    editor.category = CATEGORIES.iter().position(|category| *category == Category::Companion).unwrap();
    editor.selected =
        Category::Companion.settings().iter().position(|id| *id == SettingId::PersistentDragLock).unwrap();
    let id = editor.selected_id();
    assert_eq!(setting_text(&cfg, id, editor.locale).as_deref(), Some("打开"));
    assert_eq!(adjust_setting(&mut cfg, id, true), Adjustment::Changed);
    assert!(!cfg.gestures.three_finger_drag.persistent_drag_lock);
    assert_eq!(setting_toml(&cfg, id), TomlValue::Boolean(false));
}

#[test]
fn saving_a_default_zoom_modifier_removes_its_key() {
    let mut cfg = Config::default();
    assert_eq!(row_write(&cfg, SettingId::ModifierZoomMask), RowWrite::Remove);
    cfg.scroll.modifier_zoom_mask = Some(0x0010_0000);
    assert_eq!(row_write(&cfg, SettingId::ModifierZoomMask), RowWrite::Write(TomlValue::Integer(0x0010_0000)));
    assert_eq!(row_write(&cfg, SettingId::NaturalScroll), RowWrite::Write(TomlValue::Boolean(true)));
}

#[test]
fn a_step_up_then_down_restores_each_row() {
    for id in all_settings() {
        let mut cfg = Config::default();
        let kind = adjust_setting(&mut cfg, id, true);
        adjust_setting(&mut cfg, id, false);
        if kind == Adjustment::Changed {
            let fresh = Config::default();
            assert_eq!(setting_toml(&cfg, id), setting_toml(&fresh, id), "{id:?}");
        }
    }
}

#[test]
fn a_pending_quit_warns_and_moving_or_saving_withdraws_it() {
    let mut s = EditorState::new();
    s.mark_changed();
    assert_eq!(s.on_key(EditorKey::Quit), EditorAction::Stay);
    assert!(s.quit_pending);
    assert_eq!(s.status, "有未保存修改：按 s 保存，再按 q 放弃");
    assert_eq!(s.on_key(EditorKey::Down), EditorAction::Stay);
    assert!(!s.quit_pending);
    assert_eq!(s.on_key(EditorKey::Quit), EditorAction::Stay);
    assert_eq!(s.on_key(EditorKey::NextCategory), EditorAction::Stay);
    assert!(!s.quit_pending);
    assert_eq!((s.category, s.selected), (1, 0));
    assert_eq!(s.on_key(EditorKey::Quit), EditorAction::Stay);
    assert_eq!(s.on_key(EditorKey::SwitchFocus), EditorAction::Stay);
    assert!(s.quit_pending);
    assert_eq!(s.on_key(EditorKey::Save), EditorAction::Save);
    assert!(!s.quit_pending);
    assert_eq!(s.on_key(EditorKey::ForceQuit), EditorAction::Exit);
}
