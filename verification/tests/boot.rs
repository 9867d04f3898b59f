use macos_trackpad_companion::boot::{enable_to_policy, gesture_options};
use macos_trackpad_companion::config::{Config, GestureEnable};
use macos_trackpad_companion::output::GesturePolicy;

#[test]
fn press_and_hold_setting_reaches_gesture_options() {
    let mut cfg = Config::default();
    cfg.gestures.press_and_hold_drag.enable = GestureEnable::On;
    assert!(gesture_options(&cfg).press_and_hold_drag);
    assert!(!gesture_options(&Config::default()).press_and_hold_drag);
}

#[test]
fn enable_forms_map_to_policies() {
    assert_eq!(enable_to_policy(&GestureEnable::On), GesturePolicy::On);
    assert_eq!(enable_to_policy(&GestureEnable::Off), GesturePolicy::Off);
    let only = enable_to_policy(&GestureEnable::Only(vec!["com.apple.Safari".to_string()]));
    assert!(only.admits(&Some("com.apple.Safari".to_string())));
    assert!(!only.admits(&Some("com.apple.Terminal".to_string())));
    let except = enable_to_policy(&GestureEnable::Except(vec!["com.apple.Terminal".to_string()]));
    assert!(!except.admits(&Some("com.apple.Terminal".to_string())));
    assert!(except.admits(&None));
}
