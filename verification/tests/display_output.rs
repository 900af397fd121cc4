use shadow_os::display::{
    connector_encoder, fill_buffer_with_color, is_usable_connector, mode_summary, preferred_mode,
    select_crtc_handle, ConnectorSummary,
};

fn connector(connected: bool, modes: Vec<(u16, u16)>, current: Option<u32>, encoders: Vec<u32>) -> ConnectorSummary<u32, (u16, u16)> {
    ConnectorSummary { connected, modes, current_encoder: current, encoders }
}

#[test]
fn only_connected_connectors_with_modes_are_usable() {
    assert!(is_usable_connector(&connector(true, vec![(1080, 2340)], None, vec![])));
    assert!(!is_usable_connector(&connector(true, vec![], Some(3), vec![3])));
    assert!(!is_usable_connector(&connector(false, vec![(1080, 2340)], Some(3), vec![3])));
}

#[test]
fn the_first_mode_is_preferred() {
    let c = connector(true, vec![(1080, 2340), (720, 1280)], None, vec![]);
    assert_eq!(preferred_mode(&c), Some((1080, 2340)));
    assert_eq!(preferred_mode(&connector(true, vec![], None, vec![])), None);
}

#[test]
fn the_current_encoder_wins_over_the_list() {
    assert_eq!(connector_encoder(&connector(true, vec![], Some(7), vec![4, 5])), Some(7));
    assert_eq!(connector_encoder(&connector(true, vec![], None, vec![4, 5])), Some(4));
    assert_eq!(connector_encoder(&connector(true, vec![], None, vec![])), None);
}

#[test]
fn the_attached_crtc_wins_over_the_possible_ones() {
    assert_eq!(select_crtc_handle(Some(40u32), &vec![41, 42]), Some(40));
    assert_eq!(select_crtc_handle(None, &vec![41u32, 42]), Some(41));
    assert_eq!(select_crtc_handle::<u32>(None, &vec![]), None);
}

#[test]
fn mode_summary_reads_width_height_and_refresh() {
    assert_eq!(mode_summary(1080, 2340, 60), "1080x2340@60");
    assert_eq!(mode_summary(0, 7, 120), "0x7@120");
}

#[test]
fn fill_sets_every_whole_pixel_to_opaque_bgr() {
    let mut buffer = vec![0u8; 10];
    fill_buffer_with_color(&mut buffer, (0x11, 0x22, 0x33));
    assert_eq!(buffer, vec![0x33, 0x22, 0x11, 0xff, 0x33, 0x22, 0x11, 0xff, 0, 0]);
}
