//! State policy for modifier-based scroll routing.
//!
//! Whether a scroll session is redirected to magnification is decided once,
//! when the session begins, from the held Quartz modifier flags.
use vstd::prelude::*;

verus! {

pub const MOD_CMD: u64 = 0x0010_0000;

pub const MOD_CTRL: u64 = 0x0004_0000;

pub const MOD_OPTION: u64 = 0x0008_0000;

pub const MOD_SHIFT: u64 = 0x0002_0000;

/// The four keyboard modifier bits shared by Quartz mouse, gesture, and
/// keyboard events.
pub const KEYBOARD_MODIFIER_MASK: u64 = 0x001e_0000;

pub const DEFAULT_MODIFIER_ZOOM_MASK: u64 = 0x0014_0000;

/// Accessibility Zoom's supported scroll modifiers (Shift excluded).
pub const SUPPORTED_ZOOM_MODIFIER_MASK: u64 = 0x001c_0000;

/// The modifier masks are the unions of the single modifier bits they name.
pub proof fn lemma_modifier_masks()
    ensures
        KEYBOARD_MODIFIER_MASK == MOD_SHIFT | MOD_CTRL | MOD_OPTION | MOD_CMD,
        DEFAULT_MODIFIER_ZOOM_MASK == MOD_CMD | MOD_CTRL,
        SUPPORTED_ZOOM_MODIFIER_MASK == MOD_CMD | MOD_CTRL | MOD_OPTION,
{
    assert(0x0002_0000u64 | 0x0004_0000u64 | 0x0008_0000u64 | 0x0010_0000u64 == 0x001e_0000u64)
        by (bit_vector);
    assert(0x0010_0000u64 | 0x0004_0000u64 == 0x0014_0000u64) by (bit_vector);
    assert(0x0010_0000u64 | 0x0004_0000u64 | 0x0008_0000u64 == 0x001c_0000u64) by (bit_vector);
}

/// Merge modifiers held by the user into a synthetic shortcut's flags: the
/// shortcut's own bits are kept, all four live keyboard bits are carried,
/// and live non-keyboard flags never leak in.
pub fn merge_keyboard_modifiers(shortcut_flags: u64, live_flags: u64) -> (r: u64)
    ensures
        r == (shortcut_flags & !KEYBOARD_MODIFIER_MASK) | ((shortcut_flags | live_flags)
            & KEYBOARD_MODIFIER_MASK),
{
    (shortcut_flags & !KEYBOARD_MODIFIER_MASK) | ((shortcut_flags | live_flags)
        & KEYBOARD_MODIFIER_MASK)
}

/// Law: the merge keeps every bit of the shortcut, adds exactly the live
/// keyboard bits, and nothing else.
pub proof fn lemma_merge_keyboard_modifiers(shortcut_flags: u64, live_flags: u64)
    ensures
        ({
            let r = (shortcut_flags & !KEYBOARD_MODIFIER_MASK) | ((shortcut_flags | live_flags)
                & KEYBOARD_MODIFIER_MASK);
            &&& r & shortcut_flags == shortcut_flags
            &&& r & KEYBOARD_MODIFIER_MASK == (shortcut_flags | live_flags) & KEYBOARD_MODIFIER_MASK
            &&& r & !KEYBOARD_MODIFIER_MASK == shortcut_flags & !KEYBOARD_MODIFIER_MASK
        }),
{
    let s = shortcut_flags;
    let l = live_flags;
    assert(((s & !0x001e_0000u64) | ((s | l) & 0x001e_0000u64)) & s == s) by (bit_vector);
    assert(((s & !0x001e_0000u64) | ((s | l) & 0x001e_0000u64)) & 0x001e_0000u64 == (s | l)
        & 0x001e_0000u64) by (bit_vector);
    assert(((s & !0x001e_0000u64) | ((s | l) & 0x001e_0000u64)) & !0x001e_0000u64 == s
        & !0x001e_0000u64) by (bit_vector);
}

/// Sample Command/Control only at session begin; afterwards keep the latch.
pub fn modifier_zoom_session(begin: bool, modifiers: u64, latched: bool) -> (r: bool)
    ensures
        r == (if begin { modifiers & DEFAULT_MODIFIER_ZOOM_MASK != 0 } else { latched }),
{
    modifier_zoom_session_with_mask(begin, modifiers, latched, DEFAULT_MODIFIER_ZOOM_MASK)
}

/// Same session latch with an arbitrary Quartz modifier mask.
pub fn modifier_zoom_session_with_mask(begin: bool, modifiers: u64, latched: bool, mask: u64) -> (r:
    bool)
    ensures
        r == (if begin { modifiers & mask != 0 } else { latched }),
{
    if begin {
        modifiers & mask != 0
    } else {
        latched
    }
}

} // verus!
