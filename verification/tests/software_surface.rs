use shadow_os::color::Color;
use shadow_os::software::{GuestShellSurface, SoftwareRenderer};

#[test]
fn render_scene_produces_bgra_pixels() {
    let mut surface = GuestShellSurface::new(2, 2);
    surface.scene_renderer().clear(Color::rgba(255, 0, 0, 255));
    surface.present_scene();

    let pixels = surface.pixels();

    assert_eq!(&pixels[..4], &[0, 0, 255, 255]);
}

#[test]
fn renderer_starts_transparent_and_resizes_with_zeros() {
    let mut renderer = SoftwareRenderer::new(2, 1);
    assert_eq!(renderer.pixels(), &[0; 8]);
    renderer.put_pixel(1, 0, [1, 2, 3, 4]);
    assert_eq!(renderer.pixel_at(1, 0), Some([1, 2, 3, 4]));
    assert_eq!(renderer.pixel_at(2, 0), None);
    assert_eq!(renderer.pixel_at(-1, 0), None);
    renderer.resize(2, 2);
    assert_eq!(renderer.pixels().len(), 16);
    assert_eq!(&renderer.pixels()[4..8], &[1, 2, 3, 4]);
    assert_eq!(&renderer.pixels()[8..16], &[0; 8]);
}

#[test]
fn surface_resize_keeps_same_size_untouched() {
    let mut surface = GuestShellSurface::new(1, 1);
    surface.put_composed(0, [9, 9, 9, 9]);
    surface.resize(1, 1);
    assert_eq!(surface.pixels(), &[9, 9, 9, 9]);
    surface.resize(2, 1);
    assert_eq!(surface.pixels(), &[9, 9, 9, 9, 0, 0, 0, 0]);
    assert_eq!((surface.width(), surface.height()), (2, 1));
}
