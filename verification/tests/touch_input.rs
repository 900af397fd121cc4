use shadow_os::touch::{
    decode_raw_touch_event, parse_raw_touch_event, touch_device_info, ByteOrder, ContactSnapshot, RawTouchEvent, TouchFrameState, TouchPhase,
    ABS_MT_POSITION_X, ABS_MT_POSITION_Y, ABS_MT_TRACKING_ID, EV_ABS, EV_SYN, SYN_REPORT,
};

#[test]
fn parse_raw_touch_event_parses_axis_and_sync_events() {
    let x = parse_raw_touch_event(&[
        0xbd, 0x91, 0xce, 0x69, 0x00, 0x00, 0x00, 0x00, 0x3e, 0x8d, 0x0b, 0x00, 0x00, 0x00, 0x00,
        0x00, 0x03, 0x00, 0x35, 0x00, 0xe8, 0x03, 0x00, 0x00,
    ]);
    assert_eq!(x.event_type, EV_ABS);
    assert_eq!(x.code, ABS_MT_POSITION_X);
    assert_eq!(x.value, 1000);

    let sync = parse_raw_touch_event(&[
        0xbd, 0x91, 0xce, 0x69, 0x00, 0x00, 0x00, 0x00, 0x3e, 0x8d, 0x0b, 0x00, 0x00, 0x00, 0x00,
        0x00, 0x00, 0x00, 0x00, 0x00, 0x00, 0x00, 0x00, 0x00,
    ]);
    assert_eq!(sync.event_type, EV_SYN);
    assert_eq!(sync.code, SYN_REPORT);
    assert_eq!(sync.value, 0);
}

#[test]
fn touch_state_emits_down_move_up_for_slot_zero() {
    let mut state = TouchFrameState::new();

    state.set_slot(
        0,
        ContactSnapshot {
            tracking_id: Some(1),
            x: 540,
            y: 1200,
        },
    );
    let down = state.flush(10).expect("down event");
    assert_eq!(down.phase, TouchPhase::Down);

    let mut contact = state.slot(0);
    contact.x = 600;
    state.set_slot(0, contact);
    let moved = state.flush(20).expect("move event");
    assert_eq!(moved.phase, TouchPhase::Move);

    let mut contact = state.slot(0);
    contact.tracking_id = None;
    state.set_slot(0, contact);
    let up = state.flush(30).expect("up event");
    assert_eq!(up.phase, TouchPhase::Up);

    assert!(state.flush(40).is_none());
}

#[test]
fn touch_state_tracks_nonzero_active_slot() {
    let (x_min, x_max, y_min, y_max) = (0_i32, 1079_i32, 0_i32, 2339_i32);
    let mut state = TouchFrameState::new();
    state.set_current_slot(3);
    for (code, value) in [
        (ABS_MT_TRACKING_ID, 7),
        (ABS_MT_POSITION_X, 900),
        (ABS_MT_POSITION_Y, 2000),
    ] {
        state.handle_event(RawTouchEvent {
            event_type: EV_ABS,
            code,
            value,
            time_msec: 10,
        });
    }
    let down = state.flush(10).expect("down event");
    assert_eq!(down.phase, TouchPhase::Down);
    let normalized_x = f64::from(down.x - x_min) / f64::from(x_max - x_min);
    let normalized_y = f64::from(down.y - y_min) / f64::from(y_max - y_min);
    assert!(normalized_x > 0.8);
    assert!(normalized_y > 0.8);
}

#[test]
fn sync_report_flushes_the_pending_contact() {
    let mut state = TouchFrameState::new();
    assert!(state
        .handle_event(RawTouchEvent {
            event_type: EV_ABS,
            code: ABS_MT_TRACKING_ID,
            value: 5,
            time_msec: 1,
        })
        .is_none());
    let event = state
        .handle_event(RawTouchEvent {
            event_type: EV_SYN,
            code: SYN_REPORT,
            value: 0,
            time_msec: 2,
        })
        .expect("down on sync");
    assert_eq!(event.phase, TouchPhase::Down);
    assert_eq!(event.time_msec, 2);
}

#[test]
fn direct_devices_with_both_position_axes_are_touch_screens() {
    let axes = vec![(0x00, 0, 100), (ABS_MT_POSITION_X, 0, 1079), (ABS_MT_POSITION_Y, 0, 2339)];
    let info = touch_device_info(
        "/dev/input/event3".to_string(),
        Some("fts_ts".to_string()),
        true,
        Some(axes),
    )
    .unwrap();
    assert_eq!(info.path, "/dev/input/event3");
    assert_eq!(info.name, "fts_ts");
    assert_eq!((info.x_min, info.x_max, info.y_min, info.y_max), (0, 1079, 0, 2339));
}

#[test]
fn touch_screen_probe_keeps_the_last_range_and_names_unnamed_devices() {
    let axes = vec![(ABS_MT_POSITION_X, 0, 10), (ABS_MT_POSITION_Y, 5, 20), (ABS_MT_POSITION_X, 1, 99)];
    let info = touch_device_info("/dev/input/event0".to_string(), None, true, Some(axes)).unwrap();
    assert_eq!(info.name, "unknown");
    assert_eq!((info.x_min, info.x_max, info.y_min, info.y_max), (1, 99, 5, 20));
}

#[test]
fn indirect_or_axisless_devices_are_not_touch_screens() {
    let both = vec![(ABS_MT_POSITION_X, 0, 10), (ABS_MT_POSITION_Y, 0, 20)];
    assert!(touch_device_info("/dev/input/event1".to_string(), None, false, Some(both)).is_none());
    assert!(touch_device_info("/dev/input/event1".to_string(), None, true, None).is_none());
    let only_x = vec![(ABS_MT_POSITION_X, 0, 10)];
    assert!(touch_device_info("/dev/input/event1".to_string(), None, true, Some(only_x)).is_none());
}

#[test]
fn events_decode_in_either_byte_order() {
    let mut big = [0u8; 24];
    big[0..8].copy_from_slice(&5i64.to_be_bytes());
    big[8..16].copy_from_slice(&250_000i64.to_be_bytes());
    big[16..18].copy_from_slice(&EV_ABS.to_be_bytes());
    big[18..20].copy_from_slice(&ABS_MT_POSITION_X.to_be_bytes());
    big[20..24].copy_from_slice(&(-7i32).to_be_bytes());
    let e = decode_raw_touch_event(&big, ByteOrder::Big);
    assert_eq!((e.event_type, e.code, e.value, e.time_msec), (EV_ABS, ABS_MT_POSITION_X, -7, 5_250));

    let mut little = [0u8; 24];
    little[0..8].copy_from_slice(&5i64.to_le_bytes());
    little[8..16].copy_from_slice(&250_000i64.to_le_bytes());
    little[16..18].copy_from_slice(&EV_ABS.to_le_bytes());
    little[18..20].copy_from_slice(&ABS_MT_POSITION_X.to_le_bytes());
    little[20..24].copy_from_slice(&(-7i32).to_le_bytes());
    assert_eq!(decode_raw_touch_event(&little, ByteOrder::Little), e);
}

#[test]
fn raw_events_are_read_in_the_machine_byte_order() {
    let mut native = [0u8; 24];
    native[0..8].copy_from_slice(&2i64.to_ne_bytes());
    native[8..16].copy_from_slice(&1_999i64.to_ne_bytes());
    native[16..18].copy_from_slice(&EV_SYN.to_ne_bytes());
    native[18..20].copy_from_slice(&SYN_REPORT.to_ne_bytes());
    native[20..24].copy_from_slice(&300i32.to_ne_bytes());
    let e = parse_raw_touch_event(&native);
    assert_eq!((e.event_type, e.code, e.value, e.time_msec), (EV_SYN, SYN_REPORT, 300, 2_001));
}
