//! Output policy types consumed by the event emitter.
use crate::text::str_eq;
use vstd::prelude::*;

verus! {

/// Emitter settings. `scroll_accel_bits` is the bit pattern of an `f64`.
#[derive(Clone, Debug)]
pub struct Config {
    pub scroll_accel_bits: u64,
    pub natural_scroll: bool,
    pub horizontal_scroll: bool,
    pub momentum_scroll: bool,
    pub modifier_zoom_mask: u64,
    pub shift_scroll_horizontal: bool,
    pub haptic_feedback: bool,
    pub pinch: GesturePolicy,
    pub rotate: GesturePolicy,
    pub horizontal_swipe: SwipeConfig,
    pub vertical_swipe: SwipeConfig,
}

#[derive(Clone, Debug)]
pub struct SwipeConfig {
    pub policy: GesturePolicy,
    pub backend: SwipeBackend,
}

/// Whether a gesture is admitted, possibly depending on the bundle ID of the
/// application under the cursor.
#[derive(Clone, Debug, PartialEq, Eq)]
pub enum GesturePolicy {
    On,
    Off,
    Only(Vec<String>),
    Except(Vec<String>),
}

/// Whether `id` is one of the bundle IDs in `list`.
pub open spec fn listed(list: Seq<String>, id: Seq<char>) -> bool {
    exists|i: int| 0 <= i < list.len() && #[trigger] list[i]@ == id
}

impl GesturePolicy {
    /// Whether the policy admits a gesture over the application `app`
    /// (`None` when no application could be identified).
    pub open spec fn spec_admits(&self, app: Option<Seq<char>>) -> bool {
        match self {
            GesturePolicy::On => true,
            GesturePolicy::Off => false,
            GesturePolicy::Only(list) => match app {
                Some(id) => listed(list@, id),
                None => false,
            },
            GesturePolicy::Except(list) => match app {
                Some(id) => !listed(list@, id),
                None => true,
            },
        }
    }

    /// Whether the policy needs to know the application under the cursor.
    pub open spec fn needs_lookup(&self) -> bool {
        self is Only || self is Except
    }

    /// Decide the policy for a known application under the cursor.
    pub fn admits(&self, app: &Option<String>) -> (r: bool)
        ensures
            r == self.spec_admits(
                match app {
                    Some(s) => Some(s@),
                    None => None,
                },
            ),
    {
        match self {
            GesturePolicy::On => true,
            GesturePolicy::Off => false,
            GesturePolicy::Only(list) => match app {
                Some(id) => contains_id(list, id),
                None => false,
            },
            GesturePolicy::Except(list) => match app {
                Some(id) => !contains_id(list, id),
                None => true,
            },
        }
    }

    /// Decide the policy; `lookup` is asked for the application under the
    /// cursor only when the policy depends on it.
    pub fn evaluate<F: FnOnce() -> Option<String>>(&self, lookup: F) -> (r: bool)
        requires
            self.needs_lookup() ==> call_requires(lookup, ()),
        ensures
            !self.needs_lookup() ==> r == self.spec_admits(None),
            self.needs_lookup() ==> exists|app: Option<String>|
                call_ensures(lookup, (), app) && r == self.spec_admits(
                    match app {
                        Some(s) => Some(s@),
                        None => None,
                    },
                ),
    {
        match self {
            GesturePolicy::On => true,
            GesturePolicy::Off => false,
            _ => {
                let app = lookup();
                self.admits(&app)
            },
        }
    }
}

fn contains_id(list: &Vec<String>, id: &String) -> (r: bool)
    ensures
        r == listed(list@, id@),
{
    let mut i: usize = 0;
    while i < list.len()
        invariant
            i <= list@.len(),
            forall|j: int| 0 <= j < i ==> list@[j]@ != id@,
        decreases list@.len() - i,
    {
        if str_eq(list[i].as_str(), id.as_str()) {
            return true;
        }
        i = i + 1;
    }
    false
}

#[derive(Clone, Copy, Debug, PartialEq, Eq, Structural)]
pub enum SwipeBackend {
    Synthetic,
    Notification,
    Off,
}

#[derive(Clone, Copy, Debug, PartialEq, Eq, Structural)]
pub enum Phase {
    Began,
    Changed,
    Ended,
    Cancelled,
}

#[derive(Clone, Copy, Debug, PartialEq, Eq, Structural)]
pub enum HapticKind {
    Click,
    DragEngaged,
    GestureCommitted,
}

#[derive(Clone, Copy, Debug, PartialEq, Eq, Structural)]
pub enum SwipeAxis {
    Horizontal,
    Vertical,
}

#[derive(Clone, Copy, Debug, PartialEq, Eq, Structural)]
pub enum MouseButton {
    Left,
    Right,
}

/// No-op emitter for hosts that cannot post macOS events; the settings are
/// accepted and ignored.
pub struct Emitter;

impl Emitter {
    pub fn new(cfg: Config) -> (r: Self) {
        Emitter
    }
}

} // verus!
