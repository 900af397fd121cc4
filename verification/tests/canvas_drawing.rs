use shadow_os::canvas::{
    buffer_len, centered_text_x, draw_text, fill, fill_pixel_rect, fill_rect, pack_color,
    render_counter, uppercase, wrap_words, split_on_spaces, CounterPalette,
};
use shadow_os::color::Color;

fn px(canvas: &[u8], width: u32, x: u32, y: u32) -> [u8; 4] {
    let o = ((y * width + x) * 4) as usize;
    [canvas[o], canvas[o + 1], canvas[o + 2], canvas[o + 3]]
}

#[test]
fn pack_color_stores_bgra_little_endian() {
    let word = pack_color(Color::rgba(0x11, 0x22, 0x33, 0x44));
    assert_eq!(word, 0x4411_2233);
    assert_eq!(word.to_le_bytes(), [0x33, 0x22, 0x11, 0x44]);
    assert_eq!(buffer_len(3, 2), 24);
}

#[test]
fn fill_and_clipped_rect() {
    let mut canvas = vec![0_u8; 4 * 4 * 4 + 2];
    fill(&mut canvas, 0x0102_0304);
    assert_eq!(px(&canvas, 4, 3, 3), [4, 3, 2, 1]);
    assert_eq!(&canvas[64..], &[0, 0]);
    fill_rect(&mut canvas, 4, 4, -1, 2, 3, 10, 0xAABB_CCDD);
    assert_eq!(px(&canvas, 4, 0, 2), [0xDD, 0xCC, 0xBB, 0xAA]);
    assert_eq!(px(&canvas, 4, 1, 3), [0xDD, 0xCC, 0xBB, 0xAA]);
    assert_eq!(px(&canvas, 4, 2, 3), [4, 3, 2, 1]);
    assert_eq!(px(&canvas, 4, 0, 1), [4, 3, 2, 1]);
    fill_pixel_rect(&mut canvas, 4, 4, 3, 0, 4, 1, 0x0000_0009);
    assert_eq!(px(&canvas, 4, 3, 0), [9, 0, 0, 0]);
}

#[test]
fn glyph_rows_are_drawn_top_down_or_bottom_up() {
    // 'A' in the basic font: rows 0x0C, 0x1E, 0x33, 0x33, 0x3F, 0x33, 0x33, 0x00.
    let mut top_down = vec![0_u8; 8 * 8 * 4];
    draw_text(&mut top_down, 8, 8, 0, 0, 1, "A", 0xFFFF_FFFF, false);
    assert_eq!(px(&top_down, 8, 2, 0), [0xFF; 4]);
    assert_eq!(px(&top_down, 8, 0, 0), [0; 4]);
    assert_eq!(px(&top_down, 8, 0, 7), [0; 4]);
    let mut bottom_up = vec![0_u8; 8 * 8 * 4];
    draw_text(&mut bottom_up, 8, 8, 0, 0, 1, "A", 0xFFFF_FFFF, true);
    assert_eq!(px(&bottom_up, 8, 2, 7), [0xFF; 4]);
    assert_eq!(px(&bottom_up, 8, 0, 0), [0; 4]);
}

#[test]
fn centering_matches_the_glyph_grid() {
    // Three characters at scale 2: 3 * 16 + 2 * 2 = 52 pixels wide.
    assert_eq!(centered_text_x(0, 100, 2, 3), 24);
    assert_eq!(centered_text_x(10, 20, 2, 3), 10);
}

#[test]
fn wrapping_breaks_at_spaces() {
    let text = uppercase("field controls and profile bias");
    assert_eq!(text.iter().collect::<String>(), "FIELD CONTROLS AND PROFILE BIAS");
    let pieces = split_on_spaces(&text);
    let lines = wrap_words(&pieces, 14);
    let lines: Vec<String> = lines.iter().map(|l| l.iter().collect()).collect();
    assert_eq!(lines, vec!["FIELD CONTROLS", "AND PROFILE", "BIAS"]);
    let pieces = split_on_spaces(&['A', ' ', ' ', 'B']);
    assert_eq!(pieces.len(), 3);
}

#[test]
fn counter_screen_paints_background_bar_and_button() {
    let (w, h) = (360_u32, 700_u32);
    let mut canvas = vec![0_u8; (w * h * 4) as usize];
    let palette = CounterPalette {
        background: 0xFF10_1010,
        surface_top: 0xFF20_2020,
        surface_card: 0xFF30_3030,
        accent: 0xFF00_80FF,
        accent_pressed: 0xFF00_4080,
        text_primary: 0xFFFF_FFFF,
        text_muted: 0xFF80_8080,
    };
    render_counter(&mut canvas, w, h, 7, false, &palette);
    assert_eq!(px(&canvas, w, 0, 0), 0xFF10_1010_u32.to_le_bytes());
    assert_eq!(px(&canvas, w, 30, 30), 0xFF20_2020_u32.to_le_bytes());
    assert_eq!(px(&canvas, w, 100, 440), 0xFF00_80FF_u32.to_le_bytes());
    let mut pressed = vec![0_u8; (w * h * 4) as usize];
    render_counter(&mut pressed, w, h, 7, true, &palette);
    assert_eq!(px(&pressed, w, 100, 510), 0xFF00_4080_u32.to_le_bytes());
    assert_ne!(canvas, pressed);
}
