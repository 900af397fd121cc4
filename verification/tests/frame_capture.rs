use shadow_os::frame::{
    blit_frame_centered, capture_shm_frame, clear_framebuffer, encode_ppm, frame_checksum,
    BlitError, CapturedFrame, CaptureError, ShmBufferData, ShmFormat, BACKGROUND_PIXEL,
};

#[test]
fn blit_centers_smaller_frame() {
    let mut framebuffer = vec![0_u8; 4 * 4 * 4];
    clear_framebuffer(&mut framebuffer);

    let frame = CapturedFrame {
        width: 2,
        height: 2,
        stride: 8,
        format: ShmFormat::Argb8888,
        pixels: vec![1, 2, 3, 4, 5, 6, 7, 8, 9, 10, 11, 12, 13, 14, 15, 16],
    };

    blit_frame_centered(&mut framebuffer, 4, 4, 16, &frame).unwrap();

    let center = |x: usize, y: usize| {
        let start = (y * 16) + (x * 4);
        framebuffer[start..start + 4].to_vec()
    };

    assert_eq!(center(1, 1), vec![1, 2, 3, 4]);
    assert_eq!(center(2, 1), vec![5, 6, 7, 8]);
    assert_eq!(center(1, 2), vec![9, 10, 11, 12]);
    assert_eq!(center(2, 2), vec![13, 14, 15, 16]);
    assert_eq!(center(0, 0), BACKGROUND_PIXEL);
    assert_eq!(center(3, 3), BACKGROUND_PIXEL);
}

#[test]
fn blit_crops_oversized_frame_from_center() {
    let mut framebuffer = vec![0_u8; 2 * 2 * 4];
    clear_framebuffer(&mut framebuffer);

    let frame = CapturedFrame {
        width: 4,
        height: 2,
        stride: 16,
        format: ShmFormat::Argb8888,
        pixels: vec![
            1, 0, 0, 0, 2, 0, 0, 0, 3, 0, 0, 0, 4, 0, 0, 0, 5, 0, 0, 0, 6, 0, 0, 0, 7, 0, 0, 0, 8,
            0, 0, 0,
        ],
    };

    blit_frame_centered(&mut framebuffer, 2, 2, 8, &frame).unwrap();

    assert_eq!(&framebuffer[0..4], &[2, 0, 0, 0]);
    assert_eq!(&framebuffer[4..8], &[3, 0, 0, 0]);
    assert_eq!(&framebuffer[8..12], &[6, 0, 0, 0]);
    assert_eq!(&framebuffer[12..16], &[7, 0, 0, 0]);
}

#[test]
fn ppm_encoding_swaps_to_rgb() {
    let frame = CapturedFrame {
        width: 2,
        height: 1,
        stride: 8,
        format: ShmFormat::Argb8888,
        pixels: vec![0x10, 0x20, 0x30, 0xFF, 0x40, 0x50, 0x60, 0xFF],
    };

    let bytes = encode_ppm(&frame).unwrap();
    assert_eq!(&bytes[..11], b"P6\n2 1\n255\n");
    assert_eq!(&bytes[11..], &[0x30, 0x20, 0x10, 0x60, 0x50, 0x40]);
}

#[test]
fn checksum_is_fnv1a_of_the_pixel_bytes() {
    // Published 64-bit FNV-1a values: "a" and "foobar".
    let frame = |pixels: &[u8]| CapturedFrame {
        width: 1,
        height: 1,
        stride: 4,
        format: ShmFormat::Argb8888,
        pixels: pixels.to_vec(),
    };
    assert_eq!(frame_checksum(&frame(b"a")), 0xaf63dc4c8601ec8c);
    assert_eq!(frame_checksum(&frame(b"foobar")), 0x85944171f73967e8);
}

#[test]
fn checksum_of_no_pixels_is_the_offset_basis() {
    let frame = CapturedFrame { width: 0, height: 0, stride: 0, format: ShmFormat::Argb8888, pixels: vec![] };
    assert_eq!(frame_checksum(&frame), 0xcbf29ce484222325);
}

#[test]
fn blit_rejects_short_stride() {
    let mut framebuffer = vec![0_u8; 16];
    let frame = CapturedFrame {
        width: 2,
        height: 1,
        stride: 4,
        format: ShmFormat::Argb8888,
        pixels: vec![0; 8],
    };
    assert_eq!(
        blit_frame_centered(&mut framebuffer, 2, 2, 8, &frame),
        Err(BlitError::StrideTooSmall)
    );
}

#[test]
fn clear_leaves_partial_pixel_alone() {
    let mut framebuffer = vec![7_u8; 6];
    clear_framebuffer(&mut framebuffer);
    assert_eq!(framebuffer, vec![0x18, 0x12, 0x10, 0xFF, 7, 7]);
}

#[test]
fn capture_rejects_unsupported_format() {
    let memory = vec![0_u8; 16];
    let data = ShmBufferData {
        offset: 0,
        width: 2,
        height: 2,
        stride: 8,
        format: ShmFormat::Other(7),
    };
    assert!(matches!(
        capture_shm_frame(&memory, data),
        Err(CaptureError::UnsupportedFormat(_))
    ));
}
