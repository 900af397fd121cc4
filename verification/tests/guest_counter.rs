use shadow_os::guest_counter::{
    frame_checksum, paint_buffer, CounterPattern, BYTES_PER_PIXEL, DEFAULT_HEIGHT, DEFAULT_WIDTH,
    FULLSCREEN_BORDER_PX,
};

#[test]
fn guest_frame_pattern_checksum_is_stable() {
    let mut bytes = vec![0_u8; (DEFAULT_WIDTH * DEFAULT_HEIGHT * BYTES_PER_PIXEL) as usize];
    paint_buffer(&mut bytes, DEFAULT_WIDTH, DEFAULT_HEIGHT, CounterPattern::Checker);
    assert_eq!(frame_checksum(&bytes), 0xdd64a1693b87ade5);
}

#[test]
fn fullscreen_quadrants_use_white_border_and_distinct_corner_colors() {
    let width = (FULLSCREEN_BORDER_PX * 2) + 4;
    let height = (FULLSCREEN_BORDER_PX * 2) + 4;
    let mut bytes = vec![0_u8; (width * height * BYTES_PER_PIXEL) as usize];
    paint_buffer(&mut bytes, width, height, CounterPattern::Quadrants);

    let pixel = |x: i32, y: i32| {
        let offset = ((y * width) + x) as usize * BYTES_PER_PIXEL as usize;
        bytes[offset..offset + BYTES_PER_PIXEL as usize].to_vec()
    };

    assert_eq!(pixel(0, 0), vec![0xFF, 0xFF, 0xFF, 0xFF]);
    assert_eq!(
        pixel(FULLSCREEN_BORDER_PX, FULLSCREEN_BORDER_PX),
        vec![0x00, 0xD6, 0xFF, 0xFF]
    );
    assert_eq!(
        pixel(width - FULLSCREEN_BORDER_PX - 1, FULLSCREEN_BORDER_PX),
        vec![0xFF, 0xE8, 0x08, 0xFF]
    );
    assert_eq!(
        pixel(FULLSCREEN_BORDER_PX, height - FULLSCREEN_BORDER_PX - 1),
        vec![0x55, 0x2D, 0xFF, 0xFF]
    );
    assert_eq!(
        pixel(width - FULLSCREEN_BORDER_PX - 1, height - FULLSCREEN_BORDER_PX - 1),
        vec![0x4B, 0xD7, 0x32, 0xFF]
    );
}

#[test]
fn empty_buffer_checksum_is_the_offset_basis() {
    assert_eq!(frame_checksum(&[]), 0xcbf29ce484222325);
}

#[test]
fn negative_widths_number_rows_downward() {
    // Checker bands with a width of -7: columns are `p % -7` (never
    // negative), rows `p / -7` (zero, then negative), both rounded toward
    // zero.
    let mut bytes = vec![0_u8; 60 * 4];
    paint_buffer(&mut bytes, -7, 10, CounterPattern::Checker);
    for p in 0..60i32 {
        let x = p % -7;
        let y = p / -7;
        let red = if (x / 20) % 2 == 0 { 0xE6 } else { 0x24 };
        let green = if (y / 20) % 2 == 0 { 0x5C } else { 0xC7 };
        let at = p as usize * 4;
        assert_eq!(&bytes[at..at + 4], &[0xD8, green, red, 0xFF]);
    }
}

#[test]
fn zero_width_paints_nothing_into_an_empty_buffer() {
    let mut bytes = vec![9_u8; 3];
    paint_buffer(&mut bytes, 0, 0, CounterPattern::Quadrants);
    assert_eq!(bytes, vec![9, 9, 9]);
}
