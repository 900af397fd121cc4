use shadow_os::compositor::{runtime_surface_height, runtime_surface_width};
use shadow_os::scene::{
    fitted_app_viewport_size, APP_VIEWPORT_HEIGHT_PX, APP_VIEWPORT_WIDTH_PX, SHELL_HEIGHT_PX,
    SHELL_WIDTH_PX,
};

#[test]
fn pixel_contract_matches_shell_geometry() {
    assert_eq!(SHELL_WIDTH_PX, 540);
    assert_eq!(SHELL_HEIGHT_PX, 1170);
    assert_eq!(APP_VIEWPORT_WIDTH_PX, 540);
    assert_eq!(APP_VIEWPORT_HEIGHT_PX, 1106);
}

#[test]
fn fitted_viewport_uses_full_width_on_pixel_4a_panel() {
    assert_eq!(fitted_app_viewport_size(1080, 2340), Some((1080, 2212)));
}

#[test]
fn fitted_viewport_uses_full_height_when_target_is_wider() {
    assert_eq!(fitted_app_viewport_size(384, 720), Some((351, 720)));
}

#[test]
fn runtime_surface_dimensions_match_shell_viewport() {
    assert_eq!(runtime_surface_width(), APP_VIEWPORT_WIDTH_PX);
    assert_eq!(runtime_surface_height(), APP_VIEWPORT_HEIGHT_PX);
}

#[test]
fn fitted_viewport_rejects_empty_panels() {
    assert_eq!(fitted_app_viewport_size(0, 720), None);
    assert_eq!(fitted_app_viewport_size(384, 0), None);
    assert_eq!(fitted_app_viewport_size(1, 1), None);
    assert_eq!(fitted_app_viewport_size(540, 1106), Some((540, 1106)));
}
