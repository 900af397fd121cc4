use shadow_os::app::{counter_app_id, podcast_app_id, timeline_app_id};
use shadow_os::boot::{
    background_payload, default_guest_client_bin, detect_session_mode, init_guest_env,
    payload_waits_for_display, session_guest_env, setting_or, stock_init_argv, BackgroundPayload,
    BootFiles, SessionMode,
};
use shadow_os::compositor::{
    desktop_nav, next_touch_signal, sorted_id_list, state_report, DesktopKey, TouchRoute,
    TouchRouter, KEY_ESCAPE, KEY_SPACE, KEY_TAB,
};
use shadow_os::shell::{NavAction, ShellStatus};
use shadow_os::status::{PointerEventKind, ProfileMode, StatusModel, StatusTarget, StatusToggle};
use shadow_os::touch::TouchPhase;

fn no_files() -> BootFiles {
    BootFiles {
        late_session_rc: false,
        bootstrap: false,
        compositor_guest: false,
        runtime_client: false,
        legacy_client: false,
        drm_rect: false,
    }
}

#[test]
fn background_payload_follows_preference_order() {
    let all = BootFiles {
        late_session_rc: false,
        bootstrap: true,
        compositor_guest: true,
        runtime_client: true,
        legacy_client: true,
        drm_rect: true,
    };
    assert!(matches!(background_payload(all), Some(BackgroundPayload::Binary("/shadow-bootstrap"))));
    let session = BootFiles { late_session_rc: true, ..all };
    assert!(background_payload(session).is_none());
    let guest = BootFiles { bootstrap: false, ..all };
    assert!(matches!(background_payload(guest), Some(BackgroundPayload::GuestUi)));
    let compositor_only = BootFiles { compositor_guest: true, drm_rect: true, ..no_files() };
    let payload = background_payload(compositor_only).unwrap();
    assert_eq!(payload.label(), "/drm-rect");
    assert!(payload_waits_for_display(&payload));
    assert!(!payload_waits_for_display(&BackgroundPayload::GuestUi));
    assert_eq!(BackgroundPayload::GuestUi.label(), "/shadow-compositor-guest");
    assert!(background_payload(no_files()).is_none());
}

#[test]
fn guest_env_marks_the_runtime_client() {
    assert_eq!(default_guest_client_bin(true), "/shadow-blitz-demo");
    assert_eq!(default_guest_client_bin(false), "/shadow-counter-guest");
    let env = init_guest_env("/shadow-runtime", "/shadow-blitz-demo");
    assert_eq!(env.len(), 5);
    assert_eq!(env[0], ("XDG_RUNTIME_DIR".to_string(), "/shadow-runtime".to_string()));
    assert_eq!(env[2], ("SHADOW_GUEST_CLIENT".to_string(), "/shadow-blitz-demo".to_string()));
    assert_eq!(env[4], ("SHADOW_GUEST_CLIENT_MODE".to_string(), "runtime".to_string()));
    assert_eq!(init_guest_env("/run", "/shadow-counter-guest").len(), 4);
}

#[test]
fn session_mode_and_environment() {
    assert_eq!(detect_session_mode(Some("drm-rect"), true, true, false), Ok(SessionMode::DrmRect));
    assert_eq!(detect_session_mode(Some("guest-ui"), false, false, false), Ok(SessionMode::GuestUi));
    assert_eq!(
        detect_session_mode(Some("tv"), true, true, true),
        Err("unknown SHADOW_SESSION_MODE=tv".to_string())
    );
    assert_eq!(detect_session_mode(None, true, true, true), Ok(SessionMode::GuestUi));
    assert_eq!(detect_session_mode(None, true, false, true), Ok(SessionMode::DrmRect));
    assert!(detect_session_mode(None, false, false, false).is_err());

    assert_eq!(setting_or(None, "/drm-rect"), "/drm-rect");
    assert_eq!(setting_or(Some("/x".to_string()), "/drm-rect"), "/x");
    let env = session_guest_env("/tmp/rt", None, Some("debug".to_string()));
    assert_eq!(env[2].1, "/shadow-counter-guest");
    assert_eq!(env[3], ("RUST_LOG".to_string(), "debug".to_string()));
}

#[test]
fn stock_init_argv_defaults_and_rejects_nul() {
    assert_eq!(stock_init_argv(vec![]), Some(vec![b"/init".to_vec()]));
    let args = vec![b"/init".to_vec(), b"second_stage".to_vec()];
    assert_eq!(stock_init_argv(args.clone()), Some(args));
    assert_eq!(stock_init_argv(vec![b"/init".to_vec(), vec![b'a', 0, b'b']]), None);
}

#[test]
fn status_keys_move_focus_and_toggle() {
    let mut model = StatusModel::new();
    let out = model.handle_key(true, KEY_TAB);
    assert!(out.redraw && !out.exit);
    assert_eq!(model.focused_target(), StatusTarget::Toggle(StatusToggle::Relay));
    model.handle_key(true, KEY_SPACE);
    assert_eq!(model.pressed_target(), Some(StatusTarget::Toggle(StatusToggle::Relay)));
    let out = model.handle_key(false, KEY_SPACE);
    assert!(out.redraw && !out.exit && out.action.is_none());
    assert!(!model.toggle_enabled(StatusToggle::Relay));
    assert_eq!(model.active_count(), 1);
    let out = model.handle_key(true, KEY_ESCAPE);
    assert!(out.exit && !out.redraw);
    let out = model.handle_key(true, 0x61);
    assert!(!out.exit && !out.redraw);
}

#[test]
fn shell_touch_stays_with_the_shell_until_release() {
    let mut router = TouchRouter::new();
    assert_eq!(router.route(TouchPhase::Down, true, true, true), TouchRoute::ShellMove);
    assert!(router.shell_touch_active);
    assert_eq!(router.route(TouchPhase::Move, true, false, true), TouchRoute::ShellMove);
    assert_eq!(router.route(TouchPhase::Up, true, false, true), TouchRoute::ShellEnd { tap: true });
    assert!(!router.shell_touch_active);
    assert_eq!(router.route(TouchPhase::Down, true, false, false), TouchRoute::AppMotion { press: true });
    assert_eq!(router.route(TouchPhase::Up, false, false, false), TouchRoute::AppRelease);
    assert_eq!(router.route(TouchPhase::Move, false, false, false), TouchRoute::Outside { shell_left: false });
}

#[test]
fn desktop_keys_and_signal_tokens() {
    assert_eq!(desktop_nav(DesktopKey::Tab), Some(NavAction::Next));
    assert_eq!(desktop_nav(DesktopKey::Space), Some(NavAction::Activate));
    assert_eq!(desktop_nav(DesktopKey::Escape), Some(NavAction::Home));
    assert_eq!(desktop_nav(DesktopKey::Other), None);
    assert_eq!(next_touch_signal(41), (42, "42".to_string()));
    assert_eq!(next_touch_signal(u64::MAX), (u64::MAX, u64::MAX.to_string()));
}

#[test]
fn state_report_lists_sorted_unique_ids() {
    let ids = vec![timeline_app_id(), counter_app_id(), timeline_app_id()];
    assert_eq!(sorted_id_list(&ids), "counter,timeline");
    assert_eq!(sorted_id_list(&vec![]), "");
    let report = state_report(
        Some(counter_app_id()),
        &ids,
        &vec![podcast_app_id()],
        &vec![],
        2,
        "extra=1\n",
    );
    assert_eq!(
        report,
        "focused=counter\nmapped=counter,timeline\nlaunched=podcast\nshelved=\nwindows=2\nextra=1\n"
    );
    assert_eq!(
        state_report(None, &vec![], &vec![], &vec![], 0, ""),
        "focused=\nmapped=\nlaunched=\nshelved=\nwindows=0\n"
    );
}

#[test]
fn demo_status_keeps_the_clock_labels() {
    let status = ShellStatus::demo("09:41".to_string(), "Tuesday, March 3".to_string());
    assert_eq!(status.time_label, "09:41");
    assert_eq!(status.date_label, "Tuesday, March 3");
    assert_eq!(status.battery_percent, 78);
    assert_eq!(status.wifi_strength, 3);
}

#[test]
fn status_pointer_taps_apply_the_target_under_the_pointer() {
    let mut model = StatusModel::new();
    let relay = Some(StatusTarget::Toggle(StatusToggle::Relay));
    let out = model.handle_pointer(PointerEventKind::Motion, relay);
    assert!(out.redraw && !out.exit);
    assert_eq!(model.hovered_target(), relay);
    model.handle_pointer(PointerEventKind::Press, relay);
    assert_eq!(model.pressed_target(), relay);
    assert_eq!(model.focused_target(), StatusTarget::Toggle(StatusToggle::Relay));
    let out = model.handle_pointer(PointerEventKind::Release, relay);
    assert!(out.redraw && !out.exit);
    assert!(!model.toggle_enabled(StatusToggle::Relay));
    assert_eq!(model.pressed_target(), None);
}

#[test]
fn status_pointer_release_elsewhere_or_leaving_cancels() {
    let mut model = StatusModel::new();
    let quiet = Some(StatusTarget::Toggle(StatusToggle::Quiet));
    let before = model.toggle_enabled(StatusToggle::Quiet);
    model.handle_pointer(PointerEventKind::Press, quiet);
    let out = model.handle_pointer(PointerEventKind::Release, Some(StatusTarget::Home));
    assert!(out.redraw && !out.exit);
    assert_eq!(model.toggle_enabled(StatusToggle::Quiet), before);
    model.handle_pointer(PointerEventKind::Press, quiet);
    let out = model.handle_pointer(PointerEventKind::Leave, None);
    assert!(out.redraw && !out.exit);
    assert_eq!(model.pressed_target(), None);
    assert_eq!(model.hovered_target(), None);
    let out = model.handle_pointer(PointerEventKind::Axis, quiet);
    assert!(!out.redraw && !out.exit);
}

#[test]
fn status_pointer_tap_on_home_closes() {
    let mut model = StatusModel::new();
    model.handle_pointer(PointerEventKind::Press, Some(StatusTarget::Home));
    let out = model.handle_pointer(PointerEventKind::Release, Some(StatusTarget::Home));
    assert!(out.exit && out.redraw);
}

#[test]
fn status_labels_follow_the_toggles_and_profile() {
    let mut model = StatusModel::new();
    assert_eq!(model.active_label(false), "2 of 3 active");
    assert_eq!(model.active_label(true), "2 OF 3 ACTIVE");
    assert_eq!(model.toggle_state_label(StatusToggle::Mesh), "ON");
    assert_eq!(model.toggle_state_label(StatusToggle::Quiet), "OFF");
    assert_eq!(model.profile_state_label(ProfileMode::Street), "ACTIVE");
    assert_eq!(model.profile_state_label(ProfileMode::Travel), "READY");
    let quiet = Some(StatusTarget::Toggle(StatusToggle::Quiet));
    model.handle_pointer(PointerEventKind::Press, quiet);
    model.handle_pointer(PointerEventKind::Release, quiet);
    assert_eq!(model.active_label(false), "3 of 3 active");
    assert_eq!(model.toggle_state_label(StatusToggle::Quiet), "ON");
}
