//! The decisions of the gesture engine that do not depend on geometry:
//! its settings, the finger-count classification that drives its state
//! changes, the tap rules applied when fingers lift (with durations in
//! nanoseconds and travel in classes), the two-finger tap debounce, the
//! drag-lock release, and the close-out of a cancelled touch.
use crate::output::SwipeAxis;
use vstd::prelude::*;

verus! {

/// Power-curve cursor acceleration parameters, as `f64` bit patterns.
#[derive(Clone, Copy, Debug, PartialEq, Eq, Structural)]
pub struct CursorAccel {
    pub px_per_mm_at_ref_bits: u64,
    pub exponent_bits: u64,
    pub ref_mm_per_sec_bits: u64,
}

impl Default for CursorAccel {
    fn default() -> (r: Self)
        ensures
            r.px_per_mm_at_ref_bits == crate::config::DEFAULT_CURSOR_SENSITIVITY_BITS,
            r.exponent_bits == crate::config::DEFAULT_CURSOR_ACCEL_EXPONENT_BITS,
            r.ref_mm_per_sec_bits == crate::config::DEFAULT_CURSOR_ACCEL_REF_BITS,
    {
        CursorAccel {
            px_per_mm_at_ref_bits: crate::config::DEFAULT_CURSOR_SENSITIVITY_BITS,
            exponent_bits: crate::config::DEFAULT_CURSOR_ACCEL_EXPONENT_BITS,
            ref_mm_per_sec_bits: crate::config::DEFAULT_CURSOR_ACCEL_REF_BITS,
        }
    }
}

/// Runtime behavior switches of the gesture engine.
#[derive(Clone, Copy, Debug, PartialEq, Eq, Structural)]
pub struct GestureOptions {
    /// Whether a short one-finger touch produces a left click.
    pub tap_to_click: bool,
    /// Whether a short two-finger touch produces a secondary click.
    pub secondary_click: bool,
    /// Whether a two-finger double tap invokes Smart Zoom.
    pub smart_zoom: bool,
    /// Whether a three-finger tap invokes Dictionary Lookup.
    pub dictionary_lookup: bool,
    /// Whether two-finger translation emits scroll events.
    pub scroll_enabled: bool,
    /// Whether a right-edge two-finger swipe toggles Notification Center.
    pub right_edge_swipe: bool,
    /// Three-finger motion drags instead of firing Dock swipes.
    pub three_finger_drag: bool,
    /// Delay after the last finger leaves before a drag's button is released.
    pub release_delay_ms: u64,
    /// Whether one-finger double-tap-to-drag is enabled; off by default, as on
    /// macOS while Three-Finger Drag is active.
    pub one_finger_tap_drag: bool,
    /// Whether a stationary single-finger hold latches the left button.
    pub press_and_hold_drag: bool,
}

impl Default for GestureOptions {
    fn default() -> (r: Self)
        ensures
            r == (GestureOptions {
                tap_to_click: true,
                secondary_click: true,
                smart_zoom: true,
                dictionary_lookup: true,
                scroll_enabled: true,
                right_edge_swipe: true,
                three_finger_drag: true,
                release_delay_ms: 500,
                one_finger_tap_drag: false,
                press_and_hold_drag: false,
            }),
    {
        GestureOptions {
            tap_to_click: true,
            secondary_click: true,
            smart_zoom: true,
            dictionary_lookup: true,
            scroll_enabled: true,
            right_edge_swipe: true,
            three_finger_drag: true,
            release_delay_ms: 500,
            one_finger_tap_drag: false,
            press_and_hold_drag: false,
        }
    }
}

/// The gesture family the engine is in.
#[derive(Clone, Copy, Debug, PartialEq, Eq, Structural)]
pub enum GestureKind {
    Idle,
    OneFinger,
    TwoFingerUnclassified,
    TwoFingerPan,
    /// Locked two-finger transform family (pinch and rotate streams).
    TwoFingerPinchAndRotate,
    ThreeFingerLive,
    /// Three-finger drag: the left button is held while fingers move.
    ThreeFingerDrag,
    FourFingerLive,
    /// Latched after a swipe fires, until all fingers lift.
    SwipeLatched,
}

/// The gesture family for `n` fingers on the pad, given the current family,
/// whether a delayed drag release is pending, whether the drag button is
/// held, and whether three-finger drag is enabled.
pub open spec fn spec_classify(
    kind: GestureKind,
    n: usize,
    release_pending: bool,
    drag_button_held: bool,
    three_finger_drag: bool,
) -> GestureKind {
    if release_pending && n >= 4 {
        GestureKind::FourFingerLive
    } else if release_pending && (n == 3 || n == 0) {
        GestureKind::ThreeFingerDrag
    } else if kind == GestureKind::SwipeLatched && n > 0 {
        GestureKind::SwipeLatched
    } else if kind == GestureKind::ThreeFingerDrag && drag_button_held && n >= 4 {
        GestureKind::FourFingerLive
    } else if kind == GestureKind::ThreeFingerDrag && drag_button_held && n > 0 {
        GestureKind::ThreeFingerDrag
    } else if n == 0 {
        GestureKind::Idle
    } else if n == 1 {
        GestureKind::OneFinger
    } else if n == 2 {
        match kind {
            GestureKind::TwoFingerPan
            | GestureKind::TwoFingerPinchAndRotate
            | GestureKind::TwoFingerUnclassified => kind,
            _ => GestureKind::TwoFingerUnclassified,
        }
    } else if n == 3 {
        match kind {
            GestureKind::ThreeFingerLive
            | GestureKind::FourFingerLive
            | GestureKind::ThreeFingerDrag => kind,
            GestureKind::TwoFingerPan | GestureKind::TwoFingerPinchAndRotate => GestureKind::ThreeFingerLive,
            _ => if three_finger_drag {
                GestureKind::ThreeFingerDrag
            } else {
                GestureKind::ThreeFingerLive
            },
        }
    } else {
        GestureKind::FourFingerLive
    }
}

pub fn classify(
    kind: GestureKind,
    n: usize,
    release_pending: bool,
    drag_button_held: bool,
    three_finger_drag: bool,
) -> (r: GestureKind)
    ensures
        r == spec_classify(kind, n, release_pending, drag_button_held, three_finger_drag),
{
    // While a delayed drag release is pending, three (or zero) fingers
    // resume the drag and four start a desktop swipe; one or two fingers
    // fall through and end the drag lock.
    if release_pending {
        if n >= 4 {
            return GestureKind::FourFingerLive;
        } else if n == 3 || n == 0 {
            return GestureKind::ThreeFingerDrag;
        }
    }
    // A fired swipe stays latched until every finger leaves the pad.
    if kind == GestureKind::SwipeLatched && n > 0 {
        return GestureKind::SwipeLatched;
    }
    // An engaged three-finger drag outlives asynchronous lifts; a fourth
    // finger turns it into a four-finger swipe.
    if kind == GestureKind::ThreeFingerDrag && drag_button_held {
        if n >= 4 {
            return GestureKind::FourFingerLive;
        } else if n > 0 {
            return GestureKind::ThreeFingerDrag;
        }
    }
    match n {
        0 => GestureKind::Idle,
        1 => GestureKind::OneFinger,
        2 => match kind {
            GestureKind::TwoFingerPan
            | GestureKind::TwoFingerPinchAndRotate
            | GestureKind::TwoFingerUnclassified => kind,
            _ => GestureKind::TwoFingerUnclassified,
        },
        3 => match kind {
            GestureKind::ThreeFingerLive | GestureKind::FourFingerLive => kind,
            GestureKind::ThreeFingerDrag => kind,
            GestureKind::TwoFingerPan | GestureKind::TwoFingerPinchAndRotate => {
                GestureKind::ThreeFingerLive
            },
            _ => if three_finger_drag {
                GestureKind::ThreeFingerDrag
            } else {
                GestureKind::ThreeFingerLive
            },
        },
        _ => GestureKind::FourFingerLive,
    }
}

/// Law: with no drag lock pending and no drag held, the engine goes idle
/// exactly when the pad empties, and a single finger is always one-finger input.
pub proof fn lemma_classify_counts(kind: GestureKind, n: usize, three_finger_drag: bool)
    ensures
        (spec_classify(kind, n, false, false, three_finger_drag) == GestureKind::Idle) == (n == 0),
        n == 1 && kind != GestureKind::SwipeLatched ==> spec_classify(kind, n, false, false, three_finger_drag)
            == GestureKind::OneFinger,
        n >= 4 && kind != GestureKind::SwipeLatched ==> spec_classify(kind, n, false, false, three_finger_drag)
            == GestureKind::FourFingerLive,
{
}

/// Law: with two fingers down and no drag lock pending or held, a touch in
/// a two-finger family keeps that family from frame to frame (a locked
/// scroll stays a scroll, a locked pinch/rotate stays one), and any other
/// touch that reaches two fingers starts as undecided.
pub proof fn lemma_two_finger_family_is_kept(kind: GestureKind, three_finger_drag: bool)
    ensures
        (kind == GestureKind::TwoFingerPan || kind == GestureKind::TwoFingerPinchAndRotate || kind
            == GestureKind::TwoFingerUnclassified) ==> spec_classify(kind, 2, false, false, three_finger_drag)
            == kind,
        !(kind == GestureKind::TwoFingerPan || kind == GestureKind::TwoFingerPinchAndRotate || kind
            == GestureKind::TwoFingerUnclassified || kind == GestureKind::SwipeLatched) ==> spec_classify(
            kind,
            2,
            false,
            false,
            three_finger_drag,
        ) == GestureKind::TwoFingerUnclassified,
{
}

/// Law: with three fingers down and no drag lock pending or held, a
/// two-finger scroll or pinch/rotate that gains a finger becomes a live
/// three-finger swipe, a live swipe stays one, and a touch that reaches
/// three fingers from none, one or an undecided pair starts a three-finger
/// drag exactly when that feature is on.
pub proof fn lemma_three_finger_entry(kind: GestureKind, three_finger_drag: bool)
    ensures
        (kind == GestureKind::TwoFingerPan || kind == GestureKind::TwoFingerPinchAndRotate) ==> spec_classify(
            kind,
            3,
            false,
            false,
            three_finger_drag,
        ) == GestureKind::ThreeFingerLive,
        (kind == GestureKind::ThreeFingerLive || kind == GestureKind::FourFingerLive) ==> spec_classify(
            kind,
            3,
            false,
            false,
            three_finger_drag,
        ) == kind,
        (kind == GestureKind::Idle || kind == GestureKind::OneFinger || kind
            == GestureKind::TwoFingerUnclassified) ==> (spec_classify(kind, 3, false, false, three_finger_drag)
            == GestureKind::ThreeFingerDrag <==> three_finger_drag),
{
}

/// Law: a latched swipe holds while any finger remains.
pub proof fn lemma_swipe_latch_holds(n: usize, drag_button_held: bool, three_finger_drag: bool)
    requires
        n > 0,
    ensures
        spec_classify(GestureKind::SwipeLatched, n, false, drag_button_held, three_finger_drag)
            == GestureKind::SwipeLatched,
{
}

// ---- two-finger tap debounce ----

/// Two two-finger taps closer than this (220 ms) are a Smart Zoom double tap.
pub const TWO_FINGER_DOUBLE_TAP_WINDOW_NS: u64 = 220_000_000;

/// `now - then`, or zero when `now` is earlier.
pub open spec fn elapsed(now: u64, then: u64) -> u64 {
    if now >= then {
        (now - then) as u64
    } else {
        0
    }
}

/// What a two-finger tap lift does.
#[derive(Clone, Copy, Debug, PartialEq, Eq, Structural)]
pub enum TapLift {
    /// The second tap of a double tap: Smart Zoom, nothing left pending.
    SmartZoom,
    /// The earlier tap's window had passed: click it now, and hold this one.
    ClickThenPend,
    /// Hold this tap until its window passes.
    Pend,
}

/// A two-finger tap becomes a secondary click only once a double-tap window
/// has passed without a second tap.
#[derive(Clone, Copy, Debug, PartialEq, Eq, Structural)]
pub struct RightClickDebounce {
    /// When the tap that waits for its window lifted, in nanoseconds.
    pub pending: Option<u64>,
}

impl RightClickDebounce {
    pub open spec fn spec_lift(self, now: u64) -> (TapLift, RightClickDebounce) {
        match self.pending {
            Some(prev) => if elapsed(now, prev) <= TWO_FINGER_DOUBLE_TAP_WINDOW_NS {
                (TapLift::SmartZoom, RightClickDebounce { pending: None })
            } else {
                (TapLift::ClickThenPend, RightClickDebounce { pending: Some(now) })
            },
            None => (TapLift::Pend, RightClickDebounce { pending: Some(now) }),
        }
    }

    /// Whether a tick at `now` clicks the pending tap, and what is left.
    pub open spec fn spec_tick(self, now: u64) -> (bool, RightClickDebounce) {
        match self.pending {
            Some(t) => if elapsed(now, t) >= TWO_FINGER_DOUBLE_TAP_WINDOW_NS {
                (true, RightClickDebounce { pending: None })
            } else {
                (false, self)
            },
            None => (false, self),
        }
    }

    pub fn new() -> (r: Self)
        ensures
            r.pending is None,
    {
        RightClickDebounce { pending: None }
    }

    /// A two-finger tap lifted at `now`.
    pub fn on_tap_lift(&mut self, now: u64) -> (r: TapLift)
        ensures
            (r, *final(self)) == old(self).spec_lift(now),
    {
        match self.pending {
            Some(prev) => {
                let gap = if now >= prev { now - prev } else { 0 };
                if gap <= TWO_FINGER_DOUBLE_TAP_WINDOW_NS {
                    self.pending = None;
                    TapLift::SmartZoom
                } else {
                    self.pending = Some(now);
                    TapLift::ClickThenPend
                }
            },
            None => {
                self.pending = Some(now);
                TapLift::Pend
            },
        }
    }

    /// Time passed: `true` when the pending tap's window is over and it
    /// clicks now.
    pub fn on_tick(&mut self, now: u64) -> (fire: bool)
        ensures
            (fire, *final(self)) == old(self).spec_tick(now),
    {
        match self.pending {
            Some(t) => {
                let gap = if now >= t { now - t } else { 0 };
                if gap >= TWO_FINGER_DOUBLE_TAP_WINDOW_NS {
                    self.pending = None;
                    true
                } else {
                    false
                }
            },
            None => false,
        }
    }

    /// Clicks a pending tap at once (`true`), leaving nothing pending.
    pub fn flush(&mut self) -> (fire: bool)
        ensures
            fire == old(self).pending is Some,
            final(self).pending is None,
    {
        let fire = self.pending.is_some();
        self.pending = None;
        fire
    }

    /// Drops a pending tap without clicking it.
    pub fn cancel(&mut self)
        ensures
            final(self).pending is None,
    {
        self.pending = None;
    }
}

/// Law: two two-finger taps within the window are one Smart Zoom: the
/// first waits, ticks inside its window do not click it, and the second
/// leaves nothing to click.
pub proof fn lemma_double_tap_is_smart_zoom(t1: u64, t: u64, t2: u64)
    requires
        elapsed(t, t1) < TWO_FINGER_DOUBLE_TAP_WINDOW_NS,
        elapsed(t2, t1) <= TWO_FINGER_DOUBLE_TAP_WINDOW_NS,
    ensures
        ({
            let (first, d1) = RightClickDebounce { pending: None }.spec_lift(t1);
            let (fired, d2) = d1.spec_tick(t);
            let (second, d3) = d2.spec_lift(t2);
            &&& first == TapLift::Pend
            &&& !fired
            &&& second == TapLift::SmartZoom
            &&& d3.pending is None
        }),
{
}

/// Law: a single two-finger tap clicks exactly once, when its window is
/// over, and not again.
pub proof fn lemma_single_tap_clicks_once(t1: u64, t: u64, later: u64)
    requires
        elapsed(t, t1) >= TWO_FINGER_DOUBLE_TAP_WINDOW_NS,
    ensures
        ({
            let (_, d1) = RightClickDebounce { pending: None }.spec_lift(t1);
            let (fired, d2) = d1.spec_tick(t);
            let (again, _) = d2.spec_tick(later);
            &&& fired
            &&& !again
        }),
{
}

// ---- drag-lock release ----

/// After the fingers of an engaged three-finger drag lift, the button stays
/// held for the configured delay, so that a re-grip continues the drag.
#[derive(Clone, Copy, Debug, PartialEq, Eq, Structural)]
pub struct DragRelease {
    /// When the held button is released, in nanoseconds.
    pub expires_at: Option<u64>,
}

impl DragRelease {
    pub open spec fn spec_tick(self, now: u64) -> (bool, DragRelease) {
        match self.expires_at {
            Some(e) => if now >= e {
                (true, DragRelease { expires_at: None })
            } else {
                (false, self)
            },
            None => (false, self),
        }
    }

    pub fn new() -> (r: Self)
        ensures
            r.expires_at is None,
    {
        DragRelease { expires_at: None }
    }

    /// Whether a release is pending.
    pub fn is_armed(&self) -> (r: bool)
        ensures
            r == self.expires_at is Some,
    {
        self.expires_at.is_some()
    }

    /// The fingers lifted at `now`: release `delay_ms` later.
    pub fn arm(&mut self, now: u64, delay_ms: u64)
        requires
            now + delay_ms * 1_000_000 <= u64::MAX,
        ensures
            final(self).expires_at == Some((now + delay_ms * 1_000_000) as u64),
    {
        assert(delay_ms * 1_000_000 <= u64::MAX);
        self.expires_at = Some(now + delay_ms * 1_000_000);
    }

    /// Time passed: `true` when the delay is over and the button is released now.
    pub fn on_tick(&mut self, now: u64) -> (release: bool)
        ensures
            (release, *final(self)) == old(self).spec_tick(now),
    {
        match self.expires_at {
            Some(e) => {
                if now >= e {
                    self.expires_at = None;
                    true
                } else {
                    false
                }
            },
            None => false,
        }
    }

    /// Disarms a pending release (a re-grip, or a cancelled touch); `true`
    /// when one was pending.
    pub fn take(&mut self) -> (was_armed: bool)
        ensures
            was_armed == old(self).expires_at is Some,
            final(self).expires_at is None,
    {
        let was_armed = self.expires_at.is_some();
        self.expires_at = None;
        was_armed
    }
}

/// Law: an armed drag lock holds the button through every tick before its
/// delay is over, releases it at the first tick after, and only once.
pub proof fn lemma_drag_lock_holds_then_releases(now: u64, delay_ms: u64, t: u64, later: u64)
    requires
        now + delay_ms * 1_000_000 <= u64::MAX,
    ensures
        ({
            let armed = DragRelease { expires_at: Some((now + delay_ms * 1_000_000) as u64) };
            &&& t < now + delay_ms * 1_000_000 ==> !armed.spec_tick(t).0 && armed.spec_tick(t).1 == armed
            &&& t >= now + delay_ms * 1_000_000 ==> armed.spec_tick(t).0 && !armed.spec_tick(t).1.spec_tick(
                later,
            ).0
        }),
{
}

// ---- one-finger tap-and-drag ----

/// A touch landing this soon (220 ms) after a one-finger tap may start a
/// tap-and-drag.
pub const TAP_DRAG_INTERVAL_NS: u64 = 220_000_000;

pub open spec fn spec_second_tap(enabled: bool, last_tap: Option<u64>, now: u64) -> bool {
    enabled && (last_tap matches Some(t) && elapsed(now, t) <= TAP_DRAG_INTERVAL_NS)
}

/// Whether a one-finger touch landing at `now` is the second half of a
/// tap-and-drag: the feature is on and the last tap lifted within the
/// interval. Its press is then deferred until a hold or motion decides.
pub fn second_tap(enabled: bool, last_tap: Option<u64>, now: u64) -> (r: bool)
    ensures
        r == spec_second_tap(enabled, last_tap, now),
{
    if !enabled {
        return false;
    }
    match last_tap {
        Some(t) => {
            let gap = if now >= t { now - t } else { 0 };
            gap <= TAP_DRAG_INTERVAL_NS
        },
        None => false,
    }
}

// ---- cancelling a touch ----

/// Which streams of a locked two-finger transform were admitted.
#[derive(Clone, Copy, Debug, PartialEq, Eq, Structural)]
pub struct TransformStreams {
    pub pinch: bool,
    pub rotate: bool,
}

/// What the engine knows of the touch in progress when the link fails.
#[derive(Clone, Copy, Debug, PartialEq, Eq, Structural)]
pub struct TouchFlags {
    pub kind: GestureKind,
    /// For a locked transform: whether its pinch and rotate streams were
    /// admitted; `None` when no baseline was kept.
    pub transform: Option<TransformStreams>,
    /// The axis of a swipe whose `Began` was posted.
    pub swipe_axis: Option<SwipeAxis>,
    pub drag_button_held: bool,
    pub left_button_held: bool,
    pub hold_latched: bool,
}

/// One step of closing out a cancelled touch, in order.
#[derive(Clone, Copy, Debug, PartialEq, Eq, Structural)]
pub enum CancelStep {
    /// End the scroll stream as cancelled and stop its inertia.
    CancelScroll,
    CancelPinch,
    CancelRotate,
    CancelSwipe(SwipeAxis),
    ReleaseDragButton,
    ReleaseLeftButton,
}

/// The open streams of the touch, cancelled first.
pub open spec fn stream_steps(f: TouchFlags) -> Seq<CancelStep> {
    match f.kind {
        GestureKind::TwoFingerPan => seq![CancelStep::CancelScroll],
        GestureKind::TwoFingerPinchAndRotate => {
            let (pinch, rotate) = match f.transform {
                Some(t) => (t.pinch, t.rotate),
                None => (true, true),
            };
            (if pinch { seq![CancelStep::CancelPinch] } else { Seq::empty() }) + (if rotate {
                seq![CancelStep::CancelRotate]
            } else {
                Seq::empty()
            })
        },
        GestureKind::ThreeFingerLive | GestureKind::FourFingerLive => match f.swipe_axis {
            Some(a) => seq![CancelStep::CancelSwipe(a)],
            None => Seq::empty(),
        },
        _ => Seq::empty(),
    }
}

/// How a link fault closes out a touch: with no gesture in progress only
/// held buttons are released; otherwise its open streams are cancelled,
/// then held buttons (a latched press-and-hold included) are released.
pub open spec fn spec_cancel_plan(f: TouchFlags) -> Seq<CancelStep> {
    let drag: Seq<CancelStep> = if f.drag_button_held { seq![CancelStep::ReleaseDragButton] } else { Seq::empty() };
    if f.kind is Idle {
        drag + (if f.left_button_held { seq![CancelStep::ReleaseLeftButton] } else { Seq::empty() })
    } else {
        stream_steps(f) + drag + (if f.left_button_held || f.hold_latched {
            seq![CancelStep::ReleaseLeftButton]
        } else {
            Seq::empty()
        })
    }
}

pub fn cancel_plan(f: TouchFlags) -> (r: Vec<CancelStep>)
    ensures
        r@ == spec_cancel_plan(f),
{
    let mut steps: Vec<CancelStep> = Vec::new();
    let idle = matches!(f.kind, GestureKind::Idle);
    if !idle {
        match f.kind {
            GestureKind::TwoFingerPan => steps.push(CancelStep::CancelScroll),
            GestureKind::TwoFingerPinchAndRotate => {
                let (pinch, rotate) = match f.transform {
                    Some(t) => (t.pinch, t.rotate),
                    None => (true, true),
                };
                if pinch {
                    steps.push(CancelStep::CancelPinch);
                }
                if rotate {
                    steps.push(CancelStep::CancelRotate);
                }
            },
            GestureKind::ThreeFingerLive | GestureKind::FourFingerLive => {
                if let Some(a) = f.swipe_axis {
                    steps.push(CancelStep::CancelSwipe(a));
                }
            },
            _ => {},
        }
        assert(steps@ =~= stream_steps(f));
    }
    let ghost streams = steps@;
    if f.drag_button_held {
        steps.push(CancelStep::ReleaseDragButton);
    }
    let release_left = if idle { f.left_button_held } else { f.left_button_held || f.hold_latched };
    if release_left {
        steps.push(CancelStep::ReleaseLeftButton);
    }
    proof {
        let drag: Seq<CancelStep> = if f.drag_button_held { seq![CancelStep::ReleaseDragButton] } else { Seq::empty() };
        let left: Seq<CancelStep> = if release_left { seq![CancelStep::ReleaseLeftButton] } else { Seq::empty() };
        if idle {
            assert(streams =~= Seq::<CancelStep>::empty());
            assert(steps@ =~= drag + left);
        } else {
            assert(steps@ =~= stream_steps(f) + drag + left);
        }
    }
    steps
}

/// Law: cancelling a touch releases every held button, and clicks nothing.
pub proof fn lemma_cancel_releases_held_buttons(f: TouchFlags)
    ensures
        f.drag_button_held <==> spec_cancel_plan(f).contains(CancelStep::ReleaseDragButton),
        f.left_button_held ==> spec_cancel_plan(f).contains(CancelStep::ReleaseLeftButton),
        !(f.kind is Idle) && f.hold_latched ==> spec_cancel_plan(f).contains(CancelStep::ReleaseLeftButton),
{
    let p = spec_cancel_plan(f);
    let s = stream_steps(f);
    let drag: Seq<CancelStep> = if f.drag_button_held { seq![CancelStep::ReleaseDragButton] } else { Seq::empty() };
    assert(forall|i: int| 0 <= i < s.len() ==> s[i] != CancelStep::ReleaseDragButton && s[i]
        != CancelStep::ReleaseLeftButton);
    if f.drag_button_held {
        if f.kind is Idle {
            assert(p[0] == CancelStep::ReleaseDragButton);
        } else {
            assert(p[s.len() as int] == CancelStep::ReleaseDragButton);
        }
    }
    if p.contains(CancelStep::ReleaseDragButton) {
        let i = choose|i: int| 0 <= i < p.len() && p[i] == CancelStep::ReleaseDragButton;
        if !f.drag_button_held {
            if f.kind is Idle {
                assert(p[i] == CancelStep::ReleaseLeftButton);
            } else {
                if i < s.len() {
                    assert(p[i] == s[i]);
                } else {
                    assert(p[i] == CancelStep::ReleaseLeftButton);
                }
            }
        }
    }
    if f.left_button_held || (!(f.kind is Idle) && f.hold_latched) {
        assert(p[p.len() - 1] == CancelStep::ReleaseLeftButton);
    }
}


// ---- resolving a lift ----

/// A one- or two-finger tap lasts less than this (240 ms).
pub const TAP_MAX_DURATION_NS: u64 = 240_000_000;

/// A three-finger tap lasts less than this (380 ms).
pub const THREE_FINGER_TAP_MAX_NS: u64 = 380_000_000;

/// A three-finger tap whose fingers leave one after another spans less than
/// this (420 ms) from its first contact.
pub const SPLIT_LOOKUP_MAX_NS: u64 = 420_000_000;

/// How far the fingers of a touch travelled, by the bounds that the tap
/// rules compare against: under 1 mm, under 2.5 mm, under 2.8 mm, or more.
#[derive(Clone, Copy, Debug, PartialEq, Eq, Structural)]
pub enum Travel {
    UnderTap,
    UnderThreeFingerTap,
    UnderSplitLookup,
    Beyond,
}

impl Travel {
    pub open spec fn spec_rank(self) -> nat {
        match self {
            Travel::UnderTap => 0,
            Travel::UnderThreeFingerTap => 1,
            Travel::UnderSplitLookup => 2,
            Travel::Beyond => 3,
        }
    }

    pub fn rank(&self) -> (r: u8)
        ensures
            r == self.spec_rank(),
    {
        match self {
            Travel::UnderTap => 0,
            Travel::UnderThreeFingerTap => 1,
            Travel::UnderSplitLookup => 2,
            Travel::Beyond => 3,
        }
    }

    /// The class of the larger of two travels: the bounds are strict, so a
    /// maximum is under a bound exactly when both travels are.
    pub fn farther(self, other: Travel) -> (r: Travel)
        ensures
            r.spec_rank() == if self.spec_rank() >= other.spec_rank() {
                self.spec_rank()
            } else {
                other.spec_rank()
            },
    {
        if self.rank() >= other.rank() {
            self
        } else {
            other
        }
    }
}

pub open spec fn max_rank(a: Travel, b: Travel) -> nat {
    if a.spec_rank() >= b.spec_rank() {
        a.spec_rank()
    } else {
        b.spec_rank()
    }
}

/// A tap: shorter than 240 ms and less than 1 mm of travel.
pub open spec fn spec_is_tap(duration: u64, travel: Travel) -> bool {
    duration < TAP_MAX_DURATION_NS && travel == Travel::UnderTap
}

/// A three-finger tap whose fingers are partly lifted, waiting for the rest.
#[derive(Clone, Copy, Debug, PartialEq, Eq, Structural)]
pub struct PendingLookup {
    pub started_at: u64,
    pub travel: Travel,
}

/// A two-finger tap whose first finger has lifted.
#[derive(Clone, Copy, Debug, PartialEq, Eq, Structural)]
pub struct PendingTwoFingerTap {
    pub started_at: u64,
    pub travel: Travel,
    /// The two contacts started closer than 8 mm: one fat finger that the
    /// panel reported as two.
    pub fat_finger_split: bool,
}

/// What the engine knows when the last finger of a one-finger touch lifts.
#[derive(Clone, Copy, Debug, PartialEq, Eq, Structural)]
pub struct OneFingerLift {
    /// A press-and-hold latched the left button.
    pub hold_latched: bool,
    /// A tap-and-drag is under way.
    pub tap_drag_active: bool,
    /// The touch began while scroll inertia was coasting.
    pub born_during_coast: bool,
    /// This touch is the undecided second half of a tap-and-drag.
    pub tap_drag_pending: bool,
    pub pending_lookup: Option<PendingLookup>,
    pub pending_two_finger_tap: Option<PendingTwoFingerTap>,
    /// This finger is what is left of a two-finger gesture that was no tap.
    pub residual_suppressed: bool,
    pub started_at: u64,
    pub travel: Travel,
}

/// What a lift does.
#[derive(Clone, Copy, Debug, PartialEq, Eq, Structural)]
pub enum LiftAction {
    /// Release the left button latched by a press-and-hold.
    ReleaseHold,
    /// End the tap-and-drag, releasing its button if held.
    EndTapDrag,
    /// A one-finger tap: click the left button, and remember the tap for a
    /// following tap-and-drag.
    LeftClick,
    /// The second tap of a double click: click, remembering nothing.
    DoubleClick,
    /// A two-finger tap lifted: hand it to the secondary-click debounce.
    TwoFingerTap,
    DictionaryLookup,
    Nothing,
}

/// How the lift of a one-finger touch resolves, in order of precedence: a
/// latched hold is released; a tap-and-drag ends; a touch born during a
/// coast does nothing; an undecided second tap completes a double click; a
/// pending three-finger tap looks up when the whole touch spanned less than
/// 420 ms and travelled under 2.8 mm; a pending two-finger tap is a tap when
/// the whole touch spanned less than 240 ms and travelled under 1 mm (a left
/// click when the two contacts were one fat finger), and when it was none
/// the remaining finger may still be a tap of its own, unless the pair was
/// one fat finger; the tail of another two-finger gesture does nothing; and
/// otherwise a tap clicks.
pub open spec fn spec_one_finger_lift(s: OneFingerLift, now: u64) -> LiftAction {
    if s.hold_latched {
        LiftAction::ReleaseHold
    } else if s.tap_drag_active {
        LiftAction::EndTapDrag
    } else if s.born_during_coast {
        LiftAction::Nothing
    } else if s.tap_drag_pending {
        LiftAction::DoubleClick
    } else if let Some(p) = s.pending_lookup {
        if elapsed(now, p.started_at) < SPLIT_LOOKUP_MAX_NS && max_rank(p.travel, s.travel)
            <= Travel::UnderSplitLookup.spec_rank() {
            LiftAction::DictionaryLookup
        } else {
            LiftAction::Nothing
        }
    } else if let Some(p) = s.pending_two_finger_tap {
        let whole_is_tap = elapsed(now, p.started_at) < TAP_MAX_DURATION_NS && max_rank(
            p.travel,
            s.travel,
        ) == 0;
        if p.fat_finger_split {
            if whole_is_tap {
                LiftAction::LeftClick
            } else {
                LiftAction::Nothing
            }
        } else if whole_is_tap {
            LiftAction::TwoFingerTap
        } else if spec_is_tap(elapsed(now, s.started_at), s.travel) {
            LiftAction::LeftClick
        } else {
            LiftAction::Nothing
        }
    } else if s.residual_suppressed {
        LiftAction::Nothing
    } else if spec_is_tap(elapsed(now, s.started_at), s.travel) {
        LiftAction::LeftClick
    } else {
        LiftAction::Nothing
    }
}

fn since(now: u64, then: u64) -> (r: u64)
    ensures
        r == elapsed(now, then),
{
    if now >= then {
        now - then
    } else {
        0
    }
}

/// Resolves the lift, at `now`, of the last finger of a one-finger touch.
pub fn one_finger_lift(s: &OneFingerLift, now: u64) -> (r: LiftAction)
    ensures
        r == spec_one_finger_lift(*s, now),
{
    if s.hold_latched {
        LiftAction::ReleaseHold
    } else if s.tap_drag_active {
        LiftAction::EndTapDrag
    } else if s.born_during_coast {
        LiftAction::Nothing
    } else if s.tap_drag_pending {
        LiftAction::DoubleClick
    } else if let Some(p) = s.pending_lookup {
        if since(now, p.started_at) < SPLIT_LOOKUP_MAX_NS && p.travel.farther(s.travel).rank()
            <= Travel::UnderSplitLookup.rank() {
            LiftAction::DictionaryLookup
        } else {
            LiftAction::Nothing
        }
    } else if let Some(p) = s.pending_two_finger_tap {
        let whole_is_tap = since(now, p.started_at) < TAP_MAX_DURATION_NS
            && p.travel.farther(s.travel).rank() == 0;
        if p.fat_finger_split {
            if whole_is_tap {
                LiftAction::LeftClick
            } else {
                LiftAction::Nothing
            }
        } else if whole_is_tap {
            LiftAction::TwoFingerTap
        } else if since(now, s.started_at) < TAP_MAX_DURATION_NS && s.travel.rank() == 0 {
            LiftAction::LeftClick
        } else {
            LiftAction::Nothing
        }
    } else if s.residual_suppressed {
        LiftAction::Nothing
    } else if since(now, s.started_at) < TAP_MAX_DURATION_NS && s.travel.rank() == 0 {
        LiftAction::LeftClick
    } else {
        LiftAction::Nothing
    }
}

/// What the engine knows when an unclassified two-finger touch loses a
/// finger or both.
#[derive(Clone, Copy, Debug, PartialEq, Eq, Structural)]
pub struct TwoFingerLift {
    pub born_during_coast: bool,
    pub started_at: u64,
    pub travel: Travel,
    /// The two contacts started closer than 8 mm (one fat finger).
    pub fat_finger_split: bool,
    pub pending_lookup: Option<PendingLookup>,
}

/// How an unclassified two-finger touch resolves when both fingers are off:
/// a pending three-finger tap looks up (unless born during a coast) when
/// the whole touch spanned less than 420 ms and travelled under 2.8 mm; a
/// touch born during a coast does nothing; a tap is a left click when the
/// contacts were one fat finger and a two-finger tap otherwise.
pub open spec fn spec_two_finger_release(s: TwoFingerLift, now: u64) -> LiftAction {
    if let Some(p) = s.pending_lookup {
        if !s.born_during_coast && elapsed(now, p.started_at) < SPLIT_LOOKUP_MAX_NS && max_rank(
            p.travel,
            s.travel,
        ) <= Travel::UnderSplitLookup.spec_rank() {
            LiftAction::DictionaryLookup
        } else {
            LiftAction::Nothing
        }
    } else if s.born_during_coast {
        LiftAction::Nothing
    } else if spec_is_tap(elapsed(now, s.started_at), s.travel) {
        if s.fat_finger_split {
            LiftAction::LeftClick
        } else {
            LiftAction::TwoFingerTap
        }
    } else {
        LiftAction::Nothing
    }
}

pub fn two_finger_release(s: &TwoFingerLift, now: u64) -> (r: LiftAction)
    ensures
        r == spec_two_finger_release(*s, now),
{
    if let Some(p) = s.pending_lookup {
        if !s.born_during_coast && since(now, p.started_at) < SPLIT_LOOKUP_MAX_NS
            && p.travel.farther(s.travel).rank() <= Travel::UnderSplitLookup.rank() {
            LiftAction::DictionaryLookup
        } else {
            LiftAction::Nothing
        }
    } else if s.born_during_coast {
        LiftAction::Nothing
    } else if since(now, s.started_at) < TAP_MAX_DURATION_NS && s.travel.rank() == 0 {
        if s.fat_finger_split {
            LiftAction::LeftClick
        } else {
            LiftAction::TwoFingerTap
        }
    } else {
        LiftAction::Nothing
    }
}

/// What happens when one finger of an unclassified two-finger touch lifts.
#[derive(Clone, Copy, Debug, PartialEq, Eq, Structural)]
pub enum PartialLift {
    /// A three-finger tap is still pending: leave it for the last finger.
    KeepPendingLookup,
    /// The remaining finger is no tap; with `capture`, the pair is kept so
    /// that a quick return of the second finger resumes it.
    SuppressResidual { capture: bool },
    /// One fat finger: the remaining contact is judged on its own.
    FatFingerResidual,
    /// Hold the two-finger tap until the last finger lifts.
    PendTwoFingerTap,
}

/// A pending three-finger tap is kept; a fat-finger pair leaves an ordinary
/// one-finger touch; a touch born during a coast or that was no tap leaves a
/// suppressed remainder (captured for a rejoin only when not born during a
/// coast); and a tap waits for the last finger.
pub open spec fn spec_two_finger_partial_lift(s: TwoFingerLift, now: u64) -> PartialLift {
    if s.pending_lookup is Some {
        PartialLift::KeepPendingLookup
    } else if s.fat_finger_split {
        PartialLift::FatFingerResidual
    } else if s.born_during_coast {
        PartialLift::SuppressResidual { capture: false }
    } else if !spec_is_tap(elapsed(now, s.started_at), s.travel) {
        PartialLift::SuppressResidual { capture: true }
    } else {
        PartialLift::PendTwoFingerTap
    }
}

pub fn two_finger_partial_lift(s: &TwoFingerLift, now: u64) -> (r: PartialLift)
    ensures
        r == spec_two_finger_partial_lift(*s, now),
{
    if s.pending_lookup.is_some() {
        PartialLift::KeepPendingLookup
    } else if s.fat_finger_split {
        PartialLift::FatFingerResidual
    } else if s.born_during_coast {
        PartialLift::SuppressResidual { capture: false }
    } else if !(since(now, s.started_at) < TAP_MAX_DURATION_NS && s.travel.rank() == 0) {
        PartialLift::SuppressResidual { capture: true }
    } else {
        PartialLift::PendTwoFingerTap
    }
}

/// What the lift of fingers from a three-finger touch does.
#[derive(Clone, Copy, Debug, PartialEq, Eq, Structural)]
pub enum ThreeFingerLift {
    DictionaryLookup,
    /// Fingers remain: hold the lookup until they lift, and keep the rest
    /// of the touch from clicking.
    PendLookup,
    Nothing,
}

/// A three-finger touch that held no drag button, was not born during a
/// coast, lasted less than 380 ms and travelled under 2.5 mm is a tap: it
/// looks up when all fingers are off and waits for them otherwise.
pub open spec fn spec_three_finger_lift(
    drag_engaged: bool,
    born_during_coast: bool,
    started_at: u64,
    travel: Travel,
    now: u64,
    all_lifted: bool,
) -> ThreeFingerLift {
    if !drag_engaged && !born_during_coast && elapsed(now, started_at) < THREE_FINGER_TAP_MAX_NS
        && travel.spec_rank() <= Travel::UnderThreeFingerTap.spec_rank() {
        if all_lifted {
            ThreeFingerLift::DictionaryLookup
        } else {
            ThreeFingerLift::PendLookup
        }
    } else {
        ThreeFingerLift::Nothing
    }
}

pub fn three_finger_lift(
    drag_engaged: bool,
    born_during_coast: bool,
    started_at: u64,
    travel: Travel,
    now: u64,
    all_lifted: bool,
) -> (r: ThreeFingerLift)
    ensures
        r == spec_three_finger_lift(drag_engaged, born_during_coast, started_at, travel, now, all_lifted),
{
    if !drag_engaged && !born_during_coast && since(now, started_at) < THREE_FINGER_TAP_MAX_NS
        && travel.rank() <= Travel::UnderThreeFingerTap.rank() {
        if all_lifted {
            ThreeFingerLift::DictionaryLookup
        } else {
            ThreeFingerLift::PendLookup
        }
    } else {
        ThreeFingerLift::Nothing
    }
}

/// Law: a touch that began while scroll inertia was coasting clicks nothing
/// and looks nothing up when it lifts, whatever its fingers did (a held
/// button is still released).
pub proof fn lemma_coast_born_touch_never_clicks(
    one: OneFingerLift,
    two: TwoFingerLift,
    drag_engaged: bool,
    started_at: u64,
    travel: Travel,
    now: u64,
    all_lifted: bool,
)
    requires
        one.born_during_coast,
        two.born_during_coast,
    ensures
        !one.hold_latched && !one.tap_drag_active ==> spec_one_finger_lift(one, now)
            == LiftAction::Nothing,
        spec_two_finger_release(two, now) == LiftAction::Nothing,
        spec_two_finger_partial_lift(two, now) != PartialLift::PendTwoFingerTap,
        spec_three_finger_lift(drag_engaged, true, started_at, travel, now, all_lifted)
            == ThreeFingerLift::Nothing,
{
}

/// Law: a click needs a still touch. A one-finger lift clicks only when the
/// finger travelled under 1 mm and either it lasted less than 240 ms or it
/// ends a fat-finger pair that did; a two-finger tap needs the whole pair to
/// have lasted less than 240 ms and travelled under 1 mm.
pub proof fn lemma_clicks_need_a_still_touch(s: OneFingerLift, two: TwoFingerLift, now: u64)
    ensures
        spec_one_finger_lift(s, now) == LiftAction::LeftClick ==> s.travel == Travel::UnderTap && (
        elapsed(now, s.started_at) < TAP_MAX_DURATION_NS || (s.pending_two_finger_tap matches Some(
            p,
        ) && p.fat_finger_split && elapsed(now, p.started_at) < TAP_MAX_DURATION_NS)),
        spec_one_finger_lift(s, now) == LiftAction::TwoFingerTap ==> (s.pending_two_finger_tap matches Some(
            p,
        ) && elapsed(now, p.started_at) < TAP_MAX_DURATION_NS && p.travel == Travel::UnderTap
            && s.travel == Travel::UnderTap),
        spec_two_finger_release(two, now) == LiftAction::LeftClick || spec_two_finger_release(
            two,
            now,
        ) == LiftAction::TwoFingerTap ==> spec_is_tap(elapsed(now, two.started_at), two.travel),
{
}

/// Law: a press-and-hold latch is always released when its finger lifts.
pub proof fn lemma_hold_released_on_lift(s: OneFingerLift, now: u64)
    requires
        s.hold_latched,
    ensures
        spec_one_finger_lift(s, now) == LiftAction::ReleaseHold,
{
}


// ---- one finger on the pad ----

/// A deferred second tap engages tap-and-drag once held this long (200 ms).
pub const TAP_DRAG_CONFIRM_NS: u64 = 200_000_000;

/// A still single finger latches the left button after this long (450 ms).
pub const HOLD_TIME_NS: u64 = 450_000_000;

/// What the engine knows of a one-finger touch at a frame.
#[derive(Clone, Copy, Debug, PartialEq, Eq, Structural)]
pub struct OneFingerFrame {
    /// The touch may be the second half of a tap-and-drag.
    pub tap_drag_candidate: bool,
    pub drag_button_held: bool,
    /// When the deferred second tap landed, while still undecided.
    pub tap_drag_pending_since: Option<u64>,
    /// The finger has travelled at least 0.8 mm.
    pub moved_to_engage: bool,
    /// Press-and-hold drag is enabled.
    pub press_and_hold_drag: bool,
    pub hold_latched: bool,
    pub tap_drag_active: bool,
    /// Exactly one contact is tracked.
    pub single_contact: bool,
    /// When the finger landed.
    pub down_at: u64,
    /// The finger has travelled at most 1 mm.
    pub still: bool,
}

/// What a one-finger frame does before the cursor moves.
#[derive(Clone, Copy, Debug, PartialEq, Eq, Structural)]
pub enum FingerStep {
    /// Press the drag button: the second tap became a drag.
    EngageDrag,
    /// The second tap is undecided: keep the pointer pinned this frame.
    AwaitSecondTap,
    /// Latch the left button for a press-and-hold drag.
    LatchHold,
    /// Move the cursor.
    Track,
}

/// A tap-and-drag candidate without a held button engages when it moved
/// 0.8 mm or was held 200 ms, and otherwise pins the pointer while it is
/// undecided; a still single finger that is no candidate and no drag
/// latches the button after 450 ms when press-and-hold is on; otherwise
/// the cursor tracks the finger.
pub open spec fn spec_one_finger_frame(f: OneFingerFrame, now: u64) -> FingerStep {
    let held = match f.tap_drag_pending_since {
        Some(t) => elapsed(now, t),
        None => 0,
    };
    if f.tap_drag_candidate && !f.drag_button_held && (f.moved_to_engage || held
        >= TAP_DRAG_CONFIRM_NS) {
        FingerStep::EngageDrag
    } else if f.tap_drag_candidate && !f.drag_button_held && f.tap_drag_pending_since is Some {
        FingerStep::AwaitSecondTap
    } else if f.press_and_hold_drag && !f.hold_latched && !f.tap_drag_candidate
        && !f.tap_drag_active && f.single_contact && elapsed(now, f.down_at) >= HOLD_TIME_NS
        && f.still {
        FingerStep::LatchHold
    } else {
        FingerStep::Track
    }
}

pub fn one_finger_frame(f: &OneFingerFrame, now: u64) -> (r: FingerStep)
    ensures
        r == spec_one_finger_frame(*f, now),
{
    if f.tap_drag_candidate && !f.drag_button_held {
        let held = match f.tap_drag_pending_since {
            Some(t) => since(now, t),
            None => 0,
        };
        if f.moved_to_engage || held >= TAP_DRAG_CONFIRM_NS {
            return FingerStep::EngageDrag;
        }
        if f.tap_drag_pending_since.is_some() {
            return FingerStep::AwaitSecondTap;
        }
    }
    if f.press_and_hold_drag && !f.hold_latched && !f.tap_drag_candidate && !f.tap_drag_active
        && f.single_contact && since(now, f.down_at) >= HOLD_TIME_NS && f.still {
        FingerStep::LatchHold
    } else {
        FingerStep::Track
    }
}

/// Law: a press-and-hold latches only a still, single finger held for
/// 450 ms; and an undecided second tap held for 200 ms engages the drag
/// even without motion.
pub proof fn lemma_hold_and_drag_engagement(f: OneFingerFrame, now: u64)
    ensures
        spec_one_finger_frame(f, now) == FingerStep::LatchHold ==> f.still && f.single_contact
            && elapsed(now, f.down_at) >= HOLD_TIME_NS,
        f.tap_drag_candidate && !f.drag_button_held && (f.tap_drag_pending_since matches Some(t)
            && elapsed(now, t) >= TAP_DRAG_CONFIRM_NS) ==> spec_one_finger_frame(f, now)
            == FingerStep::EngageDrag,
{
}

} // verus!
