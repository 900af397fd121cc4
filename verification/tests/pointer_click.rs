use shadow_os::click::ClickTracker;

#[test]
fn raw_pointer_click_arms_on_press_and_disarms_on_release() {
    let mut tracker = ClickTracker::new(None, false);
    let hit = Some(String::from("counter"));

    tracker.raw_pointer_button(true, true, hit.clone());
    assert_eq!(tracker.armed_target().as_deref(), Some("counter"));

    let clicked = tracker.raw_pointer_button(false, true, hit);
    assert_eq!(tracker.armed_target(), None);
    assert_eq!(clicked.as_deref(), Some("counter"));
}

#[test]
fn release_target_none_still_clicks_armed_target() {
    let tracker = ClickTracker::new(None, false);
    assert_eq!(
        tracker.resolve_click_target(Some(String::from("counter")), None),
        Some(String::from("counter"))
    );
}

#[test]
fn release_target_mismatch_cancels_click() {
    let tracker = ClickTracker::new(None, false);
    assert_eq!(
        tracker.resolve_click_target(Some(String::from("counter")), Some(String::from("other"))),
        None
    );
}

#[test]
fn pointer_tap_dispatches_runtime_click() {
    let mut tracker = ClickTracker::new(None, false);
    assert_eq!(tracker.ui_pointer_down(true, Some(String::from("counter"))), None);
    let clicked = tracker.ui_pointer_up(true, Some(String::from("counter")));
    assert_eq!(clicked.as_deref(), Some("counter"));
    // The raw copy of the same release is skipped.
    assert_eq!(tracker.raw_pointer_button(false, true, Some(String::from("counter"))), None);
}

#[test]
fn drag_beyond_cancel_distance_cancels_the_click() {
    let mut tracker = ClickTracker::new(None, false);
    tracker.ui_pointer_down(true, Some(String::from("scroller")));
    tracker.pointer_moved(true, true);
    assert!(tracker.dragged());
    assert_eq!(tracker.ui_pointer_up(true, Some(String::from("scroller"))), None);
    assert_eq!(tracker.armed_target(), None);
}

#[test]
fn anywhere_target_catches_presses_that_hit_nothing() {
    let mut tracker = ClickTracker::new(Some(String::from("counter")), false);
    tracker.ui_pointer_down(true, None);
    assert_eq!(tracker.armed_target().as_deref(), Some("counter"));
    assert_eq!(
        tracker.ui_pointer_up(true, Some(String::from("elsewhere"))).as_deref(),
        Some("counter")
    );
    assert_eq!(tracker.touch_signal_target_id(), "counter");
    assert_eq!(ClickTracker::new(None, false).touch_signal_target_id(), "counter");
}

#[test]
fn activate_on_down_clicks_at_press_and_skips_the_release() {
    let mut tracker = ClickTracker::new(None, true);
    assert_eq!(
        tracker.ui_pointer_down(true, Some(String::from("play"))).as_deref(),
        Some("play")
    );
    assert_eq!(tracker.ui_pointer_up(true, Some(String::from("play"))), None);
    assert_eq!(tracker.raw_pointer_button(false, true, Some(String::from("play"))), None);
}

#[test]
fn secondary_pointers_are_ignored() {
    let mut tracker = ClickTracker::new(None, false);
    assert_eq!(tracker.raw_pointer_button(true, false, Some(String::from("a"))), None);
    assert_eq!(tracker.armed_target(), None);
}
