use macos_trackpad_companion::scroll_policy::{
    merge_keyboard_modifiers, modifier_zoom_session, modifier_zoom_session_with_mask, MOD_CMD,
    MOD_CTRL, MOD_OPTION, MOD_SHIFT, SUPPORTED_ZOOM_MODIFIER_MASK,
};

#[test]
fn modifier_zoom_stays_latched_until_session_end() {
    let latched = modifier_zoom_session(true, MOD_CMD, false);
    assert!(latched);
    assert!(modifier_zoom_session(false, 0, latched));

    let ordinary = modifier_zoom_session(true, 0, false);
    assert!(!ordinary);
    assert!(!modifier_zoom_session(false, MOD_CTRL, ordinary));
}

#[test]
fn modifier_zoom_accepts_option_when_selected() {
    assert!(modifier_zoom_session_with_mask(true, MOD_OPTION, false, MOD_OPTION));
    assert!(!modifier_zoom_session_with_mask(true, MOD_SHIFT, false, MOD_OPTION));
}

#[test]
fn zoom_mask_excludes_shift_from_accessibility_route() {
    assert_eq!((MOD_SHIFT | MOD_OPTION) & SUPPORTED_ZOOM_MODIFIER_MASK, MOD_OPTION);
}

#[test]
fn synthetic_shortcuts_keep_required_and_live_modifiers() {
    let registry = MOD_CTRL | (1 << 21);
    let live = MOD_SHIFT | MOD_OPTION | MOD_CMD;
    assert_eq!(
        merge_keyboard_modifiers(registry, live),
        registry | live,
        "live Shift/Option/Command must augment a Control shortcut"
    );
    assert_eq!(
        merge_keyboard_modifiers(0, live),
        live,
        "a shortcut without required modifiers still carries live flags"
    );
    assert_eq!(
        merge_keyboard_modifiers(registry, 1 << 25),
        registry,
        "unrelated CGEvent flags must not leak into keyboard modifiers"
    );
}

#[test]
fn default_mask_latches_on_command_or_control_only() {
    assert!(modifier_zoom_session(true, MOD_CTRL, false));
    assert!(!modifier_zoom_session(true, MOD_OPTION, false));
    assert!(!modifier_zoom_session(true, MOD_SHIFT, false));
    assert!(modifier_zoom_session(false, 0, true));
    assert!(!modifier_zoom_session(false, MOD_CMD, false));
}
