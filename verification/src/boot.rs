//! Startup glue: turns configuration values into the policy types the
//! emitter and the gesture engine consume, so every front end maps them the
//! same way.
use crate::config::{self, GestureEnable, HapticSetting, SwipeAxisCfg};
use crate::gesture;
use crate::output;
use crate::scroll_policy::DEFAULT_MODIFIER_ZOOM_MASK;
use vstd::prelude::*;

verus! {

/// The emitter policy `p` stands for the `enable` value `en`: the same form,
/// with the same application list.
pub open spec fn policy_of(p: output::GesturePolicy, en: GestureEnable) -> bool {
    match (p, en) {
        (output::GesturePolicy::On, GestureEnable::On) => true,
        (output::GesturePolicy::Off, GestureEnable::Off) => true,
        (output::GesturePolicy::Only(a), GestureEnable::Only(b)) => a@ == b@,
        (output::GesturePolicy::Except(a), GestureEnable::Except(b)) => a@ == b@,
        _ => false,
    }
}

pub open spec fn spec_backend(b: config::SwipeBackend) -> output::SwipeBackend {
    match b {
        config::SwipeBackend::Synthetic => output::SwipeBackend::Synthetic,
        config::SwipeBackend::Notification => output::SwipeBackend::Notification,
        config::SwipeBackend::Off => output::SwipeBackend::Off,
    }
}

fn clone_ids(apps: &Vec<String>) -> (r: Vec<String>)
    ensures
        r@ == apps@,
{
    let r = apps.clone();
    assert(r@ =~= apps@);
    r
}

pub fn enable_to_policy(en: &GestureEnable) -> (r: output::GesturePolicy)
    ensures
        policy_of(r, *en),
{
    match en {
        GestureEnable::On => output::GesturePolicy::On,
        GestureEnable::Off => output::GesturePolicy::Off,
        GestureEnable::Only(apps) => output::GesturePolicy::Only(clone_ids(apps)),
        GestureEnable::Except(apps) => output::GesturePolicy::Except(clone_ids(apps)),
    }
}

pub fn resolve_swipe(c: &SwipeAxisCfg) -> (r: output::SwipeConfig)
    ensures
        policy_of(r.policy, c.enable),
        r.backend == spec_backend(c.backend),
{
    let backend = match c.backend {
        config::SwipeBackend::Synthetic => output::SwipeBackend::Synthetic,
        config::SwipeBackend::Notification => output::SwipeBackend::Notification,
        config::SwipeBackend::Off => output::SwipeBackend::Off,
    };
    output::SwipeConfig { policy: enable_to_policy(&c.enable), backend }
}

pub fn emitter_config(cfg: &config::Config) -> (r: output::Config)
    ensures
        r.scroll_accel_bits == cfg.scroll.sensitivity_bits,
        r.natural_scroll == cfg.scroll.natural,
        r.horizontal_scroll == cfg.scroll.horizontal,
        r.momentum_scroll == cfg.scroll.momentum,
        r.modifier_zoom_mask == match cfg.scroll.modifier_zoom_mask {
            Some(m) => m,
            None => DEFAULT_MODIFIER_ZOOM_MASK,
        },
        r.shift_scroll_horizontal == cfg.scroll.shift_scroll_horizontal,
        r.haptic_feedback == (cfg.macos.haptic_feedback != HapticSetting::Off),
        policy_of(r.pinch, cfg.gestures.pinch.enable),
        policy_of(r.rotate, cfg.gestures.rotate.enable),
        policy_of(r.horizontal_swipe.policy, cfg.gestures.swipe.horizontal.enable),
        r.horizontal_swipe.backend == spec_backend(cfg.gestures.swipe.horizontal.backend),
        policy_of(r.vertical_swipe.policy, cfg.gestures.swipe.vertical.enable),
        r.vertical_swipe.backend == spec_backend(cfg.gestures.swipe.vertical.backend),
{
    output::Config {
        scroll_accel_bits: cfg.scroll.sensitivity_bits,
        natural_scroll: cfg.scroll.natural,
        horizontal_scroll: cfg.scroll.horizontal,
        momentum_scroll: cfg.scroll.momentum,
        modifier_zoom_mask: match cfg.scroll.modifier_zoom_mask {
            Some(m) => m,
            None => DEFAULT_MODIFIER_ZOOM_MASK,
        },
        shift_scroll_horizontal: cfg.scroll.shift_scroll_horizontal,
        haptic_feedback: !matches!(cfg.macos.haptic_feedback, HapticSetting::Off),
        pinch: enable_to_policy(&cfg.gestures.pinch.enable),
        rotate: enable_to_policy(&cfg.gestures.rotate.enable),
        horizontal_swipe: resolve_swipe(&cfg.gestures.swipe.horizontal),
        vertical_swipe: resolve_swipe(&cfg.gestures.swipe.vertical),
    }
}

pub fn cursor_accel(cfg: &config::Config) -> (r: gesture::CursorAccel)
    ensures
        r.px_per_mm_at_ref_bits == cfg.cursor.sensitivity_bits,
        r.exponent_bits == cfg.cursor.accel_exponent_bits,
        r.ref_mm_per_sec_bits == cfg.cursor.accel_ref_bits,
{
    gesture::CursorAccel {
        px_per_mm_at_ref_bits: cfg.cursor.sensitivity_bits,
        exponent_bits: cfg.cursor.accel_exponent_bits,
        ref_mm_per_sec_bits: cfg.cursor.accel_ref_bits,
    }
}

/// Drag gating by application is not meaningful, so the table forms of the
/// drag settings count as on.
pub fn gesture_options(cfg: &config::Config) -> (r: gesture::GestureOptions)
    ensures
        r.tap_to_click == !(cfg.gestures.tap_to_click is Off),
        r.secondary_click == !(cfg.gestures.secondary_click is Off),
        r.smart_zoom == !(cfg.gestures.smart_zoom is Off),
        r.dictionary_lookup == !(cfg.gestures.dictionary_lookup is Off),
        r.scroll_enabled == cfg.scroll.enable,
        r.right_edge_swipe == !(cfg.gestures.right_edge_swipe is Off),
        r.three_finger_drag == !(cfg.gestures.three_finger_drag.enable is Off),
        r.one_finger_tap_drag == !(cfg.gestures.one_finger_tap_drag.enable is Off),
        r.release_delay_ms == cfg.gestures.three_finger_drag.release_delay_ms,
        r.press_and_hold_drag == !(cfg.gestures.press_and_hold_drag.enable is Off),
{
    gesture::GestureOptions {
        tap_to_click: cfg.gestures.tap_to_click.is_enabled(),
        secondary_click: cfg.gestures.secondary_click.is_enabled(),
        smart_zoom: cfg.gestures.smart_zoom.is_enabled(),
        dictionary_lookup: cfg.gestures.dictionary_lookup.is_enabled(),
        scroll_enabled: cfg.scroll.enable,
        right_edge_swipe: cfg.gestures.right_edge_swipe.is_enabled(),
        three_finger_drag: cfg.gestures.three_finger_drag.enable.is_enabled(),
        one_finger_tap_drag: cfg.gestures.one_finger_tap_drag.enable.is_enabled(),
        release_delay_ms: cfg.gestures.three_finger_drag.release_delay_ms,
        press_and_hold_drag: cfg.gestures.press_and_hold_drag.enable.is_enabled(),
    }
}

/// Law: the emitter's swipe backend on each axis is the configured backend
/// of the same name: off stays off, synthetic stays synthetic, notification
/// stays notification.
pub proof fn lemma_swipe_backend_kept(b: config::SwipeBackend)
    ensures
        (spec_backend(b) is Off) <==> (b is Off),
        (spec_backend(b) is Synthetic) <==> (b is Synthetic),
        (spec_backend(b) is Notification) <==> (b is Notification),
{
}

} // verus!
