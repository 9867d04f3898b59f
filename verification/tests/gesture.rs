use macos_trackpad_companion::output::SwipeAxis;
use macos_trackpad_companion::gesture::{
    GestureOptions,
    one_finger_frame, FingerStep, OneFingerFrame,
    one_finger_lift, three_finger_lift, two_finger_partial_lift, two_finger_release, LiftAction, OneFingerLift,
    PartialLift, PendingLookup, PendingTwoFingerTap, ThreeFingerLift, Travel, TwoFingerLift,
    cancel_plan, classify, second_tap, CancelStep, DragRelease, TouchFlags, TransformStreams, GestureKind, RightClickDebounce, TapLift, TWO_FINGER_DOUBLE_TAP_WINDOW_NS,
};

const MS: u64 = 1_000_000;

#[test]
fn two_finger_double_tap_is_smart_zoom() {
    let mut d = RightClickDebounce::new();
    assert_eq!(d.on_tap_lift(100 * MS), TapLift::Pend);
    assert!(!d.on_tick(150 * MS));
    assert_eq!(d.on_tap_lift(250 * MS), TapLift::SmartZoom);
    assert!(d.pending.is_none());
    assert!(!d.on_tick(1_000 * MS));
}

#[test]
fn a_single_two_finger_tap_clicks_once_after_the_window() {
    let mut d = RightClickDebounce::new();
    assert_eq!(d.on_tap_lift(0), TapLift::Pend);
    assert!(!d.on_tick(TWO_FINGER_DOUBLE_TAP_WINDOW_NS - 1));
    assert!(d.on_tick(TWO_FINGER_DOUBLE_TAP_WINDOW_NS));
    assert!(!d.on_tick(TWO_FINGER_DOUBLE_TAP_WINDOW_NS + MS));
    // A late second tap clicks the first and waits itself.
    assert_eq!(d.on_tap_lift(0), TapLift::Pend);
    assert_eq!(d.on_tap_lift(300 * MS), TapLift::ClickThenPend);
    assert!(d.flush());
    assert!(!d.flush());
}

#[test]
fn finger_counts_pick_the_gesture_family() {
    assert_eq!(classify(GestureKind::Idle, 0, false, false, true), GestureKind::Idle);
    assert_eq!(classify(GestureKind::Idle, 1, false, false, true), GestureKind::OneFinger);
    assert_eq!(classify(GestureKind::OneFinger, 2, false, false, true), GestureKind::TwoFingerUnclassified);
    assert_eq!(classify(GestureKind::TwoFingerPan, 2, false, false, true), GestureKind::TwoFingerPan);
    assert_eq!(classify(GestureKind::Idle, 3, false, false, true), GestureKind::ThreeFingerDrag);
    assert_eq!(classify(GestureKind::Idle, 3, false, false, false), GestureKind::ThreeFingerLive);
    assert_eq!(classify(GestureKind::TwoFingerPan, 3, false, false, true), GestureKind::ThreeFingerLive);
    assert_eq!(classify(GestureKind::Idle, 5, false, false, true), GestureKind::FourFingerLive);
    assert_eq!(classify(GestureKind::SwipeLatched, 2, false, false, true), GestureKind::SwipeLatched);
    assert_eq!(classify(GestureKind::ThreeFingerDrag, 1, false, true, true), GestureKind::ThreeFingerDrag);
    assert_eq!(classify(GestureKind::ThreeFingerDrag, 4, false, true, true), GestureKind::FourFingerLive);
    assert_eq!(classify(GestureKind::Idle, 0, true, false, true), GestureKind::ThreeFingerDrag);
    assert_eq!(classify(GestureKind::Idle, 2, true, false, true), GestureKind::TwoFingerUnclassified);
}

#[test]
fn the_drag_lock_releases_once_after_its_delay() {
    let mut lock = DragRelease::new();
    assert!(!lock.is_armed());
    assert!(!lock.on_tick(10 * MS));
    lock.arm(100 * MS, 500);
    assert!(lock.is_armed());
    assert!(!lock.on_tick(599 * MS));
    assert!(lock.on_tick(600 * MS));
    assert!(!lock.on_tick(700 * MS));
    lock.arm(0, 500);
    assert!(lock.take());
    assert!(!lock.take());
    assert!(!lock.on_tick(10_000 * MS));
}

#[test]
fn a_quick_second_touch_may_start_a_tap_drag() {
    assert!(second_tap(true, Some(100 * MS), 320 * MS));
    assert!(!second_tap(true, Some(100 * MS), 321 * MS));
    assert!(!second_tap(false, Some(100 * MS), 150 * MS));
    assert!(!second_tap(true, None, 150 * MS));
    assert!(second_tap(true, Some(500 * MS), 400 * MS));
}

fn flags(kind: GestureKind) -> TouchFlags {
    TouchFlags {
        kind,
        transform: None,
        swipe_axis: None,
        drag_button_held: false,
        left_button_held: false,
        hold_latched: false,
    }
}

#[test]
fn a_link_fault_cancels_open_streams_and_releases_buttons() {
    assert_eq!(cancel_plan(flags(GestureKind::Idle)), Vec::new());
    assert_eq!(cancel_plan(flags(GestureKind::TwoFingerPan)), vec![CancelStep::CancelScroll]);
    assert_eq!(
        cancel_plan(flags(GestureKind::TwoFingerPinchAndRotate)),
        vec![CancelStep::CancelPinch, CancelStep::CancelRotate]
    );
    let mut pinch_only = flags(GestureKind::TwoFingerPinchAndRotate);
    pinch_only.transform = Some(TransformStreams { pinch: true, rotate: false });
    assert_eq!(cancel_plan(pinch_only), vec![CancelStep::CancelPinch]);
    let mut swipe = flags(GestureKind::FourFingerLive);
    swipe.swipe_axis = Some(SwipeAxis::Horizontal);
    swipe.drag_button_held = true;
    assert_eq!(
        cancel_plan(swipe),
        vec![CancelStep::CancelSwipe(SwipeAxis::Horizontal), CancelStep::ReleaseDragButton]
    );
    let mut held = flags(GestureKind::OneFinger);
    held.hold_latched = true;
    assert_eq!(cancel_plan(held), vec![CancelStep::ReleaseLeftButton]);
    let mut idle_held = flags(GestureKind::Idle);
    idle_held.hold_latched = true;
    idle_held.left_button_held = true;
    assert_eq!(cancel_plan(idle_held), vec![CancelStep::ReleaseLeftButton]);
}

fn still_finger(started_at: u64) -> OneFingerLift {
    OneFingerLift {
        hold_latched: false,
        tap_drag_active: false,
        born_during_coast: false,
        tap_drag_pending: false,
        pending_lookup: None,
        pending_two_finger_tap: None,
        residual_suppressed: false,
        started_at,
        travel: Travel::UnderTap,
    }
}

#[test]
fn a_short_still_one_finger_touch_is_a_left_click() {
    let s = still_finger(1_000 * MS);
    assert_eq!(one_finger_lift(&s, 1_100 * MS), LiftAction::LeftClick);
    // Too long, or moved too far: no tap.
    assert_eq!(one_finger_lift(&s, 1_240 * MS), LiftAction::Nothing);
    let moved = OneFingerLift { travel: Travel::UnderThreeFingerTap, ..s };
    assert_eq!(one_finger_lift(&moved, 1_100 * MS), LiftAction::Nothing);
}

#[test]
fn one_finger_lift_precedence() {
    let s = still_finger(0);
    let hold = OneFingerLift { hold_latched: true, born_during_coast: true, ..s };
    assert_eq!(one_finger_lift(&hold, 10 * MS), LiftAction::ReleaseHold);
    let drag = OneFingerLift { tap_drag_active: true, ..s };
    assert_eq!(one_finger_lift(&drag, 10 * MS), LiftAction::EndTapDrag);
    let coast = OneFingerLift { born_during_coast: true, tap_drag_pending: true, ..s };
    assert_eq!(one_finger_lift(&coast, 10 * MS), LiftAction::Nothing);
    let second = OneFingerLift { tap_drag_pending: true, travel: Travel::Beyond, ..s };
    assert_eq!(one_finger_lift(&second, 900 * MS), LiftAction::DoubleClick);
    let residual = OneFingerLift { residual_suppressed: true, ..s };
    assert_eq!(one_finger_lift(&residual, 10 * MS), LiftAction::Nothing);
}

#[test]
fn split_three_finger_tap_looks_up_once_the_last_finger_lifts() {
    let pending = PendingLookup { started_at: 0, travel: Travel::UnderThreeFingerTap };
    let s = OneFingerLift { pending_lookup: Some(pending), ..still_finger(200 * MS) };
    assert_eq!(one_finger_lift(&s, 419 * MS), LiftAction::DictionaryLookup);
    assert_eq!(one_finger_lift(&s, 420 * MS), LiftAction::Nothing);
    let far = OneFingerLift { travel: Travel::Beyond, ..s };
    assert_eq!(one_finger_lift(&far, 300 * MS), LiftAction::Nothing);
}

#[test]
fn split_two_finger_tap_resolves_on_the_last_finger() {
    let pending = PendingTwoFingerTap { started_at: 0, travel: Travel::UnderTap, fat_finger_split: false };
    let s = OneFingerLift { pending_two_finger_tap: Some(pending), ..still_finger(100 * MS) };
    assert_eq!(one_finger_lift(&s, 200 * MS), LiftAction::TwoFingerTap);
    // The pair ran too long, but the remaining finger alone was a tap.
    assert_eq!(one_finger_lift(&s, 300 * MS), LiftAction::LeftClick);
    assert_eq!(one_finger_lift(&s, 400 * MS), LiftAction::Nothing);
    let fat = OneFingerLift {
        pending_two_finger_tap: Some(PendingTwoFingerTap { fat_finger_split: true, ..pending }),
        ..s
    };
    assert_eq!(one_finger_lift(&fat, 200 * MS), LiftAction::LeftClick);
    assert_eq!(one_finger_lift(&fat, 300 * MS), LiftAction::Nothing);
}

#[test]
fn two_finger_release_and_partial_lift() {
    let s = TwoFingerLift {
        born_during_coast: false,
        started_at: 0,
        travel: Travel::UnderTap,
        fat_finger_split: false,
        pending_lookup: None,
    };
    assert_eq!(two_finger_release(&s, 100 * MS), LiftAction::TwoFingerTap);
    assert_eq!(two_finger_release(&s, 240 * MS), LiftAction::Nothing);
    let fat = TwoFingerLift { fat_finger_split: true, ..s };
    assert_eq!(two_finger_release(&fat, 100 * MS), LiftAction::LeftClick);
    let coast = TwoFingerLift { born_during_coast: true, ..s };
    assert_eq!(two_finger_release(&coast, 100 * MS), LiftAction::Nothing);
    let lookup = TwoFingerLift {
        pending_lookup: Some(PendingLookup { started_at: 0, travel: Travel::UnderSplitLookup }),
        travel: Travel::UnderThreeFingerTap,
        ..s
    };
    assert_eq!(two_finger_release(&lookup, 400 * MS), LiftAction::DictionaryLookup);
    assert_eq!(two_finger_release(&TwoFingerLift { born_during_coast: true, ..lookup }, 400 * MS), LiftAction::Nothing);

    assert_eq!(two_finger_partial_lift(&s, 100 * MS), PartialLift::PendTwoFingerTap);
    assert_eq!(two_finger_partial_lift(&s, 300 * MS), PartialLift::SuppressResidual { capture: true });
    assert_eq!(two_finger_partial_lift(&coast, 100 * MS), PartialLift::SuppressResidual { capture: false });
    assert_eq!(two_finger_partial_lift(&fat, 300 * MS), PartialLift::FatFingerResidual);
    assert_eq!(two_finger_partial_lift(&lookup, 100 * MS), PartialLift::KeepPendingLookup);
}

#[test]
fn three_finger_tap_looks_up_or_waits() {
    let t = Travel::UnderThreeFingerTap;
    assert_eq!(three_finger_lift(false, false, 0, t, 379 * MS, true), ThreeFingerLift::DictionaryLookup);
    assert_eq!(three_finger_lift(false, false, 0, t, 379 * MS, false), ThreeFingerLift::PendLookup);
    assert_eq!(three_finger_lift(false, false, 0, t, 380 * MS, true), ThreeFingerLift::Nothing);
    assert_eq!(three_finger_lift(true, false, 0, t, 100 * MS, true), ThreeFingerLift::Nothing);
    assert_eq!(three_finger_lift(false, true, 0, t, 100 * MS, true), ThreeFingerLift::Nothing);
    assert_eq!(three_finger_lift(false, false, 0, Travel::UnderSplitLookup, 100 * MS, true), ThreeFingerLift::Nothing);
}

#[test]
fn travel_classes_combine_by_the_farther() {
    assert_eq!(Travel::UnderTap.farther(Travel::UnderSplitLookup), Travel::UnderSplitLookup);
    assert_eq!(Travel::Beyond.farther(Travel::UnderTap), Travel::Beyond);
    assert_eq!(Travel::UnderThreeFingerTap.rank(), 1);
}

fn finger_frame() -> OneFingerFrame {
    OneFingerFrame {
        tap_drag_candidate: false,
        drag_button_held: false,
        tap_drag_pending_since: None,
        moved_to_engage: false,
        press_and_hold_drag: true,
        hold_latched: false,
        tap_drag_active: false,
        single_contact: true,
        down_at: 0,
        still: true,
    }
}

#[test]
fn held_second_tap_engages_the_drag_and_a_quick_one_waits() {
    let f = OneFingerFrame { tap_drag_candidate: true, tap_drag_pending_since: Some(100 * MS), ..finger_frame() };
    assert_eq!(one_finger_frame(&f, 250 * MS), FingerStep::AwaitSecondTap);
    assert_eq!(one_finger_frame(&f, 300 * MS), FingerStep::EngageDrag);
    let moved = OneFingerFrame { moved_to_engage: true, ..f };
    assert_eq!(one_finger_frame(&moved, 110 * MS), FingerStep::EngageDrag);
    let engaged = OneFingerFrame { drag_button_held: true, tap_drag_pending_since: None, tap_drag_active: true, ..f };
    assert_eq!(one_finger_frame(&engaged, 900 * MS), FingerStep::Track);
}

#[test]
fn press_and_hold_latches_only_a_still_single_finger() {
    let f = finger_frame();
    assert_eq!(one_finger_frame(&f, 449 * MS), FingerStep::Track);
    assert_eq!(one_finger_frame(&f, 450 * MS), FingerStep::LatchHold);
    assert_eq!(one_finger_frame(&OneFingerFrame { still: false, ..f }, 600 * MS), FingerStep::Track);
    assert_eq!(one_finger_frame(&OneFingerFrame { single_contact: false, ..f }, 600 * MS), FingerStep::Track);
    assert_eq!(one_finger_frame(&OneFingerFrame { press_and_hold_drag: false, ..f }, 600 * MS), FingerStep::Track);
    assert_eq!(one_finger_frame(&OneFingerFrame { hold_latched: true, ..f }, 600 * MS), FingerStep::Track);
}

#[test]
fn default_options_leave_one_finger_tap_drag_off() {
    let d = GestureOptions::default();
    assert!(d.three_finger_drag);
    assert!(!d.press_and_hold_drag);
    assert!(!d.one_finger_tap_drag);
}
