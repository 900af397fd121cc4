//! Captured client frames: checksums, centring onto a panel, PPM export.
use vstd::prelude::*;

verus! {

pub const BYTES_PER_PIXEL: usize = 4;
/// Background of the panel outside the centred frame (BGRA).
pub const BACKGROUND_PIXEL: [u8; 4] = [0x18, 0x12, 0x10, 0xFF];
pub const FNV_OFFSET_BASIS: u64 = 0xcbf29ce484222325;
pub const FNV_PRIME: u64 = 0x100000001b3;

/// Pixel format of a shared-memory buffer.
#[derive(Clone, Copy, Debug, PartialEq, Eq, Structural)]
pub enum ShmFormat {
    Argb8888,
    Xrgb8888,
    /// Any other format, by its `wl_shm` code.
    Other(u32),
}

/// A client frame copied out of shared memory.
#[derive(Clone, Debug, PartialEq, Eq)]
pub struct CapturedFrame {
    pub width: u32,
    pub height: u32,
    pub stride: u32,
    pub format: ShmFormat,
    pub pixels: Vec<u8>,
}

/// 64-bit FNV-1a hash of `bytes`.
pub open spec fn fnv1a(bytes: Seq<u8>) -> u64
    decreases bytes.len(),
{
    if bytes.len() == 0 {
        FNV_OFFSET_BASIS
    } else {
        let h = fnv1a(bytes.drop_last()) ^ (bytes.last() as u64);
        ((h as nat * FNV_PRIME as nat) % 0x1_0000_0000_0000_0000) as u64
    }
}

/// FNV-1a checksum of a byte buffer.
pub fn checksum_bytes(bytes: &[u8]) -> (r: u64)
    ensures
        r == fnv1a(bytes@),
{
    let mut hash = FNV_OFFSET_BASIS;
    let mut i: usize = 0;
    assert(bytes@.take(0) =~= Seq::<u8>::empty());
    while i < bytes.len()
        invariant
            0 <= i <= bytes.len(),
            hash == fnv1a(bytes@.take(i as int)),
        decreases bytes.len() - i,
    {
        assert(bytes@.take(i + 1).drop_last() =~= bytes@.take(i as int));
        hash = hash ^ (bytes[i] as u64);
        hash = hash.wrapping_mul(FNV_PRIME);
        i = i + 1;
    }
    assert(bytes@.take(bytes.len() as int) =~= bytes@);
    hash
}

/// The checksum that identifies a frame's content: the 64-bit FNV-1a hash
/// of its pixel bytes alone, in order (start from `FNV_OFFSET_BASIS`; for
/// each byte, XOR it in, then multiply by `FNV_PRIME` modulo 2^64). Size,
/// stride and format do not enter it; a frame without pixels has the offset
/// basis as its checksum.
pub fn frame_checksum(frame: &CapturedFrame) -> (r: u64)
    ensures
        r == fnv1a(frame.pixels@),
{
    checksum_bytes(frame.pixels.as_slice())
}

/// Where a frame lands when centred on a panel: the copied size, its origin on
/// the panel and its origin in the frame (the frame is cropped from its centre
/// when larger than the panel).
#[derive(Clone, Copy, Debug, PartialEq, Eq, Structural)]
pub struct CopyGeometry {
    pub copy_width: u32,
    pub copy_height: u32,
    pub dst_x: u32,
    pub dst_y: u32,
    pub src_x: u32,
    pub src_y: u32,
}

pub open spec fn min_u32(a: u32, b: u32) -> u32 {
    if a < b { a } else { b }
}

pub open spec fn centered_copy_spec(dst_w: u32, dst_h: u32, src_w: u32, src_h: u32) -> CopyGeometry {
    let cw = min_u32(src_w, dst_w);
    let ch = min_u32(src_h, dst_h);
    CopyGeometry {
        copy_width: cw,
        copy_height: ch,
        dst_x: if dst_w > cw { ((dst_w - cw) / 2) as u32 } else { 0 },
        dst_y: if dst_h > ch { ((dst_h - ch) / 2) as u32 } else { 0 },
        src_x: if src_w > dst_w { ((src_w - cw) / 2) as u32 } else { 0 },
        src_y: if src_h > dst_h { ((src_h - ch) / 2) as u32 } else { 0 },
    }
}

/// Centres a `src_w` x `src_h` frame on a `dst_w` x `dst_h` panel.
pub fn centered_copy(dst_w: u32, dst_h: u32, src_w: u32, src_h: u32) -> (g: CopyGeometry)
    ensures
        g == centered_copy_spec(dst_w, dst_h, src_w, src_h),
        g.dst_x + g.copy_width <= dst_w,
        g.dst_y + g.copy_height <= dst_h,
        g.src_x + g.copy_width <= src_w,
        g.src_y + g.copy_height <= src_h,
{
    let copy_width = if src_w < dst_w { src_w } else { dst_w };
    let copy_height = if src_h < dst_h { src_h } else { dst_h };
    CopyGeometry {
        copy_width,
        copy_height,
        dst_x: if dst_w > copy_width { (dst_w - copy_width) / 2 } else { 0 },
        dst_y: if dst_h > copy_height { (dst_h - copy_height) / 2 } else { 0 },
        src_x: if src_w > dst_w { (src_w - copy_width) / 2 } else { 0 },
        src_y: if src_h > dst_h { (src_h - copy_height) / 2 } else { 0 },
    }
}

/// Fills a buffer with the background pixel; trailing bytes that do not make a
/// whole pixel are left alone.
pub open spec fn cleared(fb: Seq<u8>) -> Seq<u8> {
    Seq::new(
        fb.len(),
        |i: int| if i < fb.len() - fb.len() % 4 { BACKGROUND_PIXEL@[i % 4] } else { fb[i] },
    )
}

pub fn clear_framebuffer(framebuffer: &mut Vec<u8>)
    ensures
        final(framebuffer)@ == cleared(old(framebuffer)@),
{
    let n = framebuffer.len();
    let whole = n - n % 4;
    let mut i: usize = 0;
    while i < whole
        invariant
            framebuffer.len() == n,
            whole == n - n % 4,
            0 <= i <= whole,
            i % 4 == 0,
            forall|k: int| 0 <= k < i ==> #[trigger] framebuffer@[k] == BACKGROUND_PIXEL@[k % 4],
            forall|k: int| i <= k < n ==> #[trigger] framebuffer@[k] == old(framebuffer)@[k],
        decreases whole - i,
    {
        framebuffer.set(i, 0x18);
        framebuffer.set(i + 1, 0x12);
        framebuffer.set(i + 2, 0x10);
        framebuffer.set(i + 3, 0xFF);
        assert forall|k: int| 0 <= k < i + 4 implies #[trigger] framebuffer@[k] == BACKGROUND_PIXEL@[k % 4] by {
            if k >= i {
                assert((k - i) % 4 == k % 4);
            }
        }
        i = i + 4;
    }
    assert(framebuffer@ =~= cleared(old(framebuffer)@));
}

/// Why a frame could not be centred onto a panel.
#[derive(Clone, Copy, Debug, PartialEq, Eq, Structural)]
pub enum BlitError {
    /// The frame's rows are shorter than its width in pixels.
    StrideTooSmall,
    /// A row offset does not fit in `usize`.
    OffsetOverflow,
    /// A row reaches past the frame's pixels or the panel's buffer.
    OutOfBounds,
}

/// Byte offset of row `row` of a centred copy in the frame and on the panel, or
/// the error that computing or checking it raises.
pub open spec fn row_span(
    g: CopyGeometry,
    fb_len: int,
    fb_stride: int,
    frame_len: int,
    frame_stride: int,
    row: int,
) -> Result<(int, int), BlitError> {
    let row_bytes = g.copy_width * 4;
    let src_offset = (g.src_y + row) * frame_stride + g.src_x * 4;
    let dst_offset = (g.dst_y + row) * fb_stride + g.dst_x * 4;
    if (g.src_y + row) * frame_stride > usize::MAX || src_offset > usize::MAX {
        Err(BlitError::OffsetOverflow)
    } else if (g.dst_y + row) * fb_stride > usize::MAX || dst_offset > usize::MAX {
        Err(BlitError::OffsetOverflow)
    } else if src_offset + row_bytes > usize::MAX || dst_offset + row_bytes > usize::MAX {
        Err(BlitError::OffsetOverflow)
    } else if src_offset + row_bytes > frame_len || dst_offset + row_bytes > fb_len {
        Err(BlitError::OutOfBounds)
    } else {
        Ok((src_offset, dst_offset))
    }
}

/// `fb` with `len` bytes of `src` from `from` written at `at`.
pub open spec fn copy_into(fb: Seq<u8>, at: int, src: Seq<u8>, from: int, len: int) -> Seq<u8> {
    Seq::new(
        fb.len(),
        |i: int| if at <= i < at + len { src[from + i - at] } else { fb[i] },
    )
}

/// The panel buffer after copying rows `0..rows` of the centred frame.
pub open spec fn blit_rows(
    fb: Seq<u8>,
    g: CopyGeometry,
    fb_stride: int,
    frame: Seq<u8>,
    frame_stride: int,
    rows: int,
) -> Seq<u8>
    decreases rows,
{
    if rows <= 0 {
        fb
    } else {
        let before = blit_rows(fb, g, fb_stride, frame, frame_stride, rows - 1);
        match row_span(g, fb.len() as int, fb_stride, frame.len() as int, frame_stride, rows - 1) {
            Ok((s, d)) => copy_into(before, d, frame, s, g.copy_width * 4),
            Err(_) => before,
        }
    }
}

/// First row in `0..rows` whose span fails.
pub open spec fn first_bad_row(
    g: CopyGeometry,
    fb_len: int,
    fb_stride: int,
    frame_len: int,
    frame_stride: int,
    from: int,
    rows: int,
) -> Option<(int, BlitError)>
    decreases rows - from,
{
    if from >= rows || from < 0 {
        None
    } else {
        match row_span(g, fb_len, fb_stride, frame_len, frame_stride, from) {
            Err(e) => Some((from, e)),
            Ok(_) => first_bad_row(g, fb_len, fb_stride, frame_len, frame_stride, from + 1, rows),
        }
    }
}

/// Copies a frame centred onto a panel buffer of `fb_width` x `fb_height` pixels
/// with rows `fb_stride` bytes apart, row by row, stopping at the first row that
/// does not fit.
pub fn blit_frame_centered(
    framebuffer: &mut Vec<u8>,
    fb_width: u32,
    fb_height: u32,
    fb_stride: usize,
    frame: &CapturedFrame,
) -> (r: Result<(), BlitError>)
    requires
        frame.width * 4 <= u32::MAX,
        fb_width * 4 <= usize::MAX,
    ensures
        final(framebuffer)@.len() == old(framebuffer)@.len(),
        frame.stride < frame.width * 4 ==> r == Err::<(), BlitError>(BlitError::StrideTooSmall)
            && final(framebuffer)@ == old(framebuffer)@,
        ({
            let g = centered_copy_spec(fb_width, fb_height, frame.width, frame.height);
            r is Ok && fb_stride >= g.copy_width * 4 ==> forall|row: int, b: int|
                0 <= row < g.copy_height && 0 <= b < g.copy_width * 4 ==> #[trigger] panel_byte(
                    final(framebuffer)@,
                    g,
                    fb_stride as int,
                    row,
                    b,
                ) == frame_byte(frame.pixels@, g, frame.stride as int, row, b)
        }),
        frame.stride >= frame.width * 4 ==> ({
            let g = centered_copy_spec(fb_width, fb_height, frame.width, frame.height);
            let bad = first_bad_row(
                g,
                old(framebuffer)@.len() as int,
                fb_stride as int,
                frame.pixels@.len() as int,
                frame.stride as int,
                0,
                g.copy_height as int,
            );
            match bad {
                None => r is Ok && final(framebuffer)@ == blit_rows(
                    old(framebuffer)@,
                    g,
                    fb_stride as int,
                    frame.pixels@,
                    frame.stride as int,
                    g.copy_height as int,
                ),
                Some((row, e)) => r == Err::<(), BlitError>(e) && final(framebuffer)@ == blit_rows(
                    old(framebuffer)@,
                    g,
                    fb_stride as int,
                    frame.pixels@,
                    frame.stride as int,
                    row,
                ),
            }
        }),
{
    if frame.stride < frame.width * 4 {
        return Err(BlitError::StrideTooSmall);
    }
    let g = centered_copy(fb_width, fb_height, frame.width, frame.height);
    let row_bytes: usize = g.copy_width as usize * BYTES_PER_PIXEL;
    let src_stride = frame.stride as usize;
    let ghost fb0 = framebuffer@;
    let mut row: usize = 0;
    while row < g.copy_height as usize
        invariant
            g == centered_copy_spec(fb_width, fb_height, frame.width, frame.height),
            row_bytes == g.copy_width * 4,
            src_stride == frame.stride,
            0 <= row <= g.copy_height,
            fb0 == old(framebuffer)@,
            frame.stride >= frame.width * 4,
            fb_width * 4 <= usize::MAX,
            framebuffer@.len() == fb0.len(),
            framebuffer@ == blit_rows(fb0, g, fb_stride as int, frame.pixels@, frame.stride as int, row as int),
            first_bad_row(g, fb0.len() as int, fb_stride as int, frame.pixels@.len() as int, frame.stride as int, 0, g.copy_height as int)
                == first_bad_row(g, fb0.len() as int, fb_stride as int, frame.pixels@.len() as int, frame.stride as int, row as int, g.copy_height as int),
        decreases g.copy_height - row,
    {
        let src_row = g.src_y as usize + row;
        let dst_row = g.dst_y as usize + row;
        let ghost span = row_span(g, fb0.len() as int, fb_stride as int, frame.pixels@.len() as int, frame.stride as int, row as int);
        let src_base = match src_row.checked_mul(src_stride) {
            Some(v) => v,
            None => return Err(BlitError::OffsetOverflow),
        };
        let src_offset = match src_base.checked_add(g.src_x as usize * BYTES_PER_PIXEL) {
            Some(v) => v,
            None => return Err(BlitError::OffsetOverflow),
        };
        let dst_base = match dst_row.checked_mul(fb_stride) {
            Some(v) => v,
            None => return Err(BlitError::OffsetOverflow),
        };
        let dst_offset = match dst_base.checked_add(g.dst_x as usize * BYTES_PER_PIXEL) {
            Some(v) => v,
            None => return Err(BlitError::OffsetOverflow),
        };
        let src_end = match src_offset.checked_add(row_bytes) {
            Some(v) => v,
            None => return Err(BlitError::OffsetOverflow),
        };
        let dst_end = match dst_offset.checked_add(row_bytes) {
            Some(v) => v,
            None => return Err(BlitError::OffsetOverflow),
        };
        if src_end > frame.pixels.len() || dst_end > framebuffer.len() {
            return Err(BlitError::OutOfBounds);
        }
        assert(span == Ok::<(int, int), BlitError>((src_offset as int, dst_offset as int)));
        copy_bytes(framebuffer, dst_offset, &frame.pixels, src_offset, row_bytes);
        row = row + 1;
    }
    proof {
        if fb_stride >= g.copy_width * 4 {
            assert forall|rr: int, b: int|
                0 <= rr < g.copy_height && 0 <= b < g.copy_width * 4 implies #[trigger] panel_byte(
                framebuffer@,
                g,
                fb_stride as int,
                rr,
                b,
            ) == frame_byte(frame.pixels@, g, frame.stride as int, rr, b) by {
                lemma_blit_copies_each_row(fb0, g, fb_stride as int, frame.pixels@, frame.stride as int, g.copy_height as int, rr, b);
            }
        }
    }
    Ok(())
}

/// Rows `from..rows` all fit, so each of them fits, and so do rows
/// `from..rows - 1`.
proof fn lemma_rows_fit(
    g: CopyGeometry,
    fb_len: int,
    fb_stride: int,
    frame_len: int,
    frame_stride: int,
    from: int,
    rows: int,
    k: int,
)
    requires
        0 <= from,
        first_bad_row(g, fb_len, fb_stride, frame_len, frame_stride, from, rows) is None,
    ensures
        from <= k < rows ==> row_span(g, fb_len, fb_stride, frame_len, frame_stride, k) is Ok,
        first_bad_row(g, fb_len, fb_stride, frame_len, frame_stride, from, rows - 1) is None,
    decreases rows - from,
{
    if from < rows {
        lemma_rows_fit(g, fb_len, fb_stride, frame_len, frame_stride, from + 1, rows, k);
    }
}

/// The byte at column byte `b` of copied row `r` on the panel.
pub open spec fn panel_byte(fb: Seq<u8>, g: CopyGeometry, fb_stride: int, r: int, b: int) -> u8 {
    fb[(g.dst_y + r) * fb_stride + g.dst_x * 4 + b]
}

/// The byte at column byte `b` of copied row `r` in the frame.
pub open spec fn frame_byte(frame: Seq<u8>, g: CopyGeometry, frame_stride: int, r: int, b: int) -> u8 {
    frame[(g.src_y + r) * frame_stride + g.src_x * 4 + b]
}

/// When every copied row fits and the panel's rows do not overlap, each
/// copied row of the panel holds the bytes of its own row of the frame:
/// row `r` of the copy, `dst_y + r` on the panel, comes from row
/// `src_y + r` of the frame, starting `dst_x` and `src_x` pixels in.
pub proof fn lemma_blit_copies_each_row(
    fb: Seq<u8>,
    g: CopyGeometry,
    fb_stride: int,
    frame: Seq<u8>,
    frame_stride: int,
    rows: int,
    r: int,
    b: int,
)
    requires
        0 <= r < rows,
        0 <= b < g.copy_width * 4,
        fb_stride >= g.copy_width * 4,
        first_bad_row(g, fb.len() as int, fb_stride, frame.len() as int, frame_stride, 0, rows) is None,
    ensures
        blit_rows(fb, g, fb_stride, frame, frame_stride, rows).len() == fb.len(),
        panel_byte(blit_rows(fb, g, fb_stride, frame, frame_stride, rows), g, fb_stride, r, b) == frame_byte(
            frame,
            g,
            frame_stride,
            r,
            b,
        ),
    decreases rows,
{
    lemma_blit_len(fb, g, fb_stride, frame, frame_stride, rows);
    lemma_rows_fit(g, fb.len() as int, fb_stride, frame.len() as int, frame_stride, 0, rows, rows - 1);
    let i = (g.dst_y + r) * fb_stride + g.dst_x * 4 + b;
    let len = g.copy_width * 4;
    let d = (g.dst_y + rows - 1) * fb_stride + g.dst_x * 4;
    let sft = (g.src_y + rows - 1) * frame_stride + g.src_x * 4;
    let before = blit_rows(fb, g, fb_stride, frame, frame_stride, rows - 1);
    assert(row_span(g, fb.len() as int, fb_stride, frame.len() as int, frame_stride, rows - 1) == Ok::<(int, int), BlitError>((sft, d)));
    if r == rows - 1 {
        assert(d <= i < d + len);
    } else {
        lemma_blit_copies_each_row(fb, g, fb_stride, frame, frame_stride, rows - 1, r, b);
        let a = g.dst_y + r;
        let bb = g.dst_y + rows - 1;
        assert((a + 1) * fb_stride <= bb * fb_stride) by (nonlinear_arith)
            requires
                a + 1 <= bb,
                fb_stride >= 0,
        ;
        assert(a * fb_stride + fb_stride == (a + 1) * fb_stride) by (nonlinear_arith);
        assert(i < d);
    }
}

proof fn lemma_blit_len(fb: Seq<u8>, g: CopyGeometry, fb_stride: int, frame: Seq<u8>, frame_stride: int, rows: int)
    ensures
        blit_rows(fb, g, fb_stride, frame, frame_stride, rows).len() == fb.len(),
    decreases rows,
{
    if rows > 0 {
        lemma_blit_len(fb, g, fb_stride, frame, frame_stride, rows - 1);
    }
}

/// Copies `len` bytes of `src` from `from` into `dst` at `at`.
fn copy_bytes(dst: &mut Vec<u8>, at: usize, src: &Vec<u8>, from: usize, len: usize)
    requires
        at + len <= old(dst)@.len(),
        from + len <= src@.len(),
    ensures
        final(dst)@ == copy_into(old(dst)@, at as int, src@, from as int, len as int),
{
    let mut i: usize = 0;
    while i < len
        invariant
            at + len <= dst.len(),
            from + len <= src.len(),
            dst@.len() == old(dst)@.len(),
            0 <= i <= len,
            forall|k: int| 0 <= k < dst@.len() ==> #[trigger] dst@[k] == (if at <= k < at + i { src@[from + k - at] } else { old(dst)@[k] }),
        decreases len - i,
    {
        dst.set(at + i, src[from + i]);
        i = i + 1;
    }
    assert(dst@ =~= copy_into(old(dst)@, at as int, src@, from as int, len as int));
}

} // verus!

verus! {

/// Geometry and format of a client's shared-memory buffer, as the client
/// declared them.
#[derive(Clone, Copy, Debug, PartialEq, Eq, Structural)]
pub struct ShmBufferData {
    pub offset: i32,
    pub width: i32,
    pub height: i32,
    pub stride: i32,
    pub format: ShmFormat,
}

/// Why a shared-memory buffer could not be captured.
#[derive(Clone, Copy, Debug, PartialEq, Eq, Structural)]
pub enum CaptureError {
    NegativeWidth,
    NegativeHeight,
    NegativeStride,
    NegativeOffset,
    /// `stride * height` does not fit in `usize`.
    FrameTooLarge,
    /// Only ARGB8888 and XRGB8888 are taken.
    UnsupportedFormat(ShmFormat),
    /// The frame reaches past the end of the mapped memory.
    OutOfBounds,
}

pub open spec fn format_supported(f: ShmFormat) -> bool {
    f == ShmFormat::Argb8888 || f == ShmFormat::Xrgb8888
}

/// The outcome of capturing `data` out of `memory`: the error, or the range of
/// `memory` that holds the frame.
pub open spec fn capture_spec(memory_len: int, data: ShmBufferData) -> Result<(int, int), CaptureError> {
    if data.width < 0 {
        Err(CaptureError::NegativeWidth)
    } else if data.height < 0 {
        Err(CaptureError::NegativeHeight)
    } else if data.stride < 0 {
        Err(CaptureError::NegativeStride)
    } else if data.offset < 0 {
        Err(CaptureError::NegativeOffset)
    } else if data.stride * data.height > usize::MAX {
        Err(CaptureError::FrameTooLarge)
    } else if !format_supported(data.format) {
        Err(CaptureError::UnsupportedFormat(data.format))
    } else if data.offset > memory_len || data.stride * data.height > memory_len - data.offset {
        Err(CaptureError::OutOfBounds)
    } else {
        Ok((data.offset as int, data.offset + data.stride * data.height))
    }
}

/// Copies a client's frame out of its shared memory, after checking the declared
/// geometry against the mapping.
pub fn capture_shm_frame(memory: &[u8], data: ShmBufferData) -> (r: Result<CapturedFrame, CaptureError>)
    ensures
        match capture_spec(memory@.len() as int, data) {
            Ok((start, end)) => r matches Ok(f) && f.width == data.width && f.height == data.height
                && f.stride == data.stride && f.format == data.format
                && f.pixels@ == memory@.subrange(start, end),
            Err(e) => r == Err::<CapturedFrame, CaptureError>(e),
        },
{
    if data.width < 0 {
        return Err(CaptureError::NegativeWidth);
    }
    if data.height < 0 {
        return Err(CaptureError::NegativeHeight);
    }
    if data.stride < 0 {
        return Err(CaptureError::NegativeStride);
    }
    if data.offset < 0 {
        return Err(CaptureError::NegativeOffset);
    }
    let width = data.width as u32;
    let height = data.height as u32;
    let stride = data.stride as u32;
    let offset = data.offset as usize;
    assert(stride as u64 * height as u64 <= 0xffff_ffff * 0xffff_ffff) by (nonlinear_arith)
        requires
            stride <= 0xffff_ffff,
            height <= 0xffff_ffff,
    ;
    let wide_len: u64 = stride as u64 * height as u64;
    if wide_len > usize::MAX as u64 {
        return Err(CaptureError::FrameTooLarge);
    }
    let frame_len = wide_len as usize;
    match data.format {
        ShmFormat::Argb8888 | ShmFormat::Xrgb8888 => {},
        _ => return Err(CaptureError::UnsupportedFormat(data.format)),
    }
    if offset > memory.len() || frame_len > memory.len() - offset {
        return Err(CaptureError::OutOfBounds);
    }
    let mut pixels: Vec<u8> = Vec::new();
    let mut i: usize = 0;
    while i < frame_len
        invariant
            offset + frame_len <= memory.len(),
            0 <= i <= frame_len,
            pixels@ == memory@.subrange(offset as int, offset + i),
        decreases frame_len - i,
    {
        pixels.push(memory[offset + i]);
        assert(pixels@ =~= memory@.subrange(offset as int, offset + i + 1));
        i = i + 1;
    }
    Ok(CapturedFrame { width, height, stride, format: data.format, pixels })
}

/// Decimal digits of `n` in ASCII.
pub open spec fn decimal(n: nat) -> Seq<u8>
    decreases n,
{
    if n < 10 {
        seq![(48 + n) as u8]
    } else {
        decimal(n / 10).push((48 + n % 10) as u8)
    }
}

/// Appends the decimal digits of `n`.
pub fn push_decimal(out: &mut Vec<u8>, n: u32)
    ensures
        final(out)@ == old(out)@ + decimal(n as nat),
    decreases n,
{
    if n >= 10 {
        push_decimal(out, n / 10);
    }
    let digit = (48 + n % 10) as u8;
    out.push(digit);
    proof {
        if n >= 10 {
            assert(final(out)@ =~= old(out)@ + decimal(n as nat));
        } else {
            assert(final(out)@ =~= old(out)@ + decimal(n as nat));
        }
    }
}

/// Why a frame could not be written as a PPM image.
#[derive(Clone, Copy, Debug, PartialEq, Eq, Structural)]
pub enum PpmError {
    /// A row offset does not fit in `usize`.
    RowOffsetOverflow,
    /// A row reaches past the end of the pixels.
    RowOutOfBounds,
}

/// The header of a binary PPM image of the given size.
pub open spec fn ppm_header(width: u32, height: u32) -> Seq<u8> {
    seq![0x50u8, 0x36u8, 0x0au8] + decimal(width as nat) + seq![0x20u8] + decimal(height as nat) + seq![
        0x0au8,
        0x32u8,
        0x35u8,
        0x35u8,
        0x0au8,
    ]
}

/// One BGRA row of `width` pixels starting at `start`, as RGB.
pub open spec fn rgb_row(pixels: Seq<u8>, start: int, width: int) -> Seq<u8> {
    Seq::new((3 * width) as nat, |i: int| pixels[start + (i / 3) * 4 + (2 - i % 3)])
}

pub open spec fn rgb_rows(pixels: Seq<u8>, width: int, stride: int, rows: int) -> Seq<u8>
    decreases rows,
{
    if rows <= 0 {
        seq![]
    } else {
        rgb_rows(pixels, width, stride, rows - 1) + rgb_row(pixels, (rows - 1) * stride, width)
    }
}

/// Red, green and blue of the BGRA pixel at column `col` of row `row` of a
/// frame whose rows are `stride` bytes apart.
pub open spec fn frame_pixel_rgb(pixels: Seq<u8>, stride: int, row: int, col: int) -> (u8, u8, u8) {
    (pixels[row * stride + 4 * col + 2], pixels[row * stride + 4 * col + 1], pixels[row * stride + 4 * col])
}

/// The three bytes of pixel (`col`, `row`) in a PPM body of `width`
/// pixels a row that starts after `header_len` bytes.
pub open spec fn ppm_body_pixel(bytes: Seq<u8>, header_len: int, width: int, row: int, col: int) -> (u8, u8, u8) {
    let at = header_len + 3 * (row * width + col);
    (bytes[at], bytes[at + 1], bytes[at + 2])
}

/// The RGB body of a PPM image holds three bytes for each pixel, and the
/// pixel at row `r`, column `c` is the red, green and blue of the BGRA
/// pixel `r * stride + 4 * c` bytes into the frame: every row is read from
/// its own place.
pub proof fn lemma_ppm_body_pixel(pixels: Seq<u8>, width: int, stride: int, rows: int, r: int, c: int)
    requires
        0 <= r < rows,
        0 <= c < width,
    ensures
        rgb_rows(pixels, width, stride, rows).len() == 3 * width * rows,
        ppm_body_pixel(rgb_rows(pixels, width, stride, rows), 0, width, r, c) == frame_pixel_rgb(pixels, stride, r, c),
    decreases rows,
{
    lemma_rgb_rows_len(pixels, width, stride, rows);
    let prefix = rgb_rows(pixels, width, stride, rows - 1);
    let last = rgb_row(pixels, (rows - 1) * stride, width);
    lemma_rgb_rows_len(pixels, width, stride, rows - 1);
    let at = 3 * (r * width + c);
    if r == rows - 1 {
        assert(at == 3 * width * (rows - 1) + 3 * c) by (nonlinear_arith)
            requires
                at == 3 * (r * width + c),
                r == rows - 1,
        ;
        assert((3 * c) / 3 == c && (3 * c) % 3 == 0) by (nonlinear_arith)
            requires
                c >= 0,
        ;
        assert((3 * c + 1) / 3 == c && (3 * c + 1) % 3 == 1) by (nonlinear_arith)
            requires
                c >= 0,
        ;
        assert((3 * c + 2) / 3 == c && (3 * c + 2) % 3 == 2) by (nonlinear_arith)
            requires
                c >= 0,
        ;
        assert(rgb_rows(pixels, width, stride, rows)[at] == last[3 * c]);
        assert(rgb_rows(pixels, width, stride, rows)[at + 1] == last[3 * c + 1]);
        assert(rgb_rows(pixels, width, stride, rows)[at + 2] == last[3 * c + 2]);
    } else {
        lemma_ppm_body_pixel(pixels, width, stride, rows - 1, r, c);
        assert(at + 2 < 3 * width * (rows - 1)) by (nonlinear_arith)
            requires
                at == 3 * (r * width + c),
                0 <= r < rows - 1,
                0 <= c < width,
        ;
        assert(rgb_rows(pixels, width, stride, rows)[at] == prefix[at]);
        assert(rgb_rows(pixels, width, stride, rows)[at + 1] == prefix[at + 1]);
        assert(rgb_rows(pixels, width, stride, rows)[at + 2] == prefix[at + 2]);
    }
}

proof fn lemma_rgb_rows_len(pixels: Seq<u8>, width: int, stride: int, rows: int)
    requires
        width >= 0,
        rows >= 0,
    ensures
        rgb_rows(pixels, width, stride, rows).len() == 3 * width * rows,
    decreases rows,
{
    if rows > 0 {
        lemma_rgb_rows_len(pixels, width, stride, rows - 1);
        let last = rgb_row(pixels, (rows - 1) * stride, width);
        assert(last.len() == 3 * width);
        assert(rgb_rows(pixels, width, stride, rows) == rgb_rows(pixels, width, stride, rows - 1) + last);
        assert(3 * width * (rows - 1) + 3 * width == 3 * width * rows) by (nonlinear_arith);
    } else {
        assert(3 * width * rows == 0) by (nonlinear_arith)
            requires
                rows == 0,
        ;
    }
}

/// The first row in `from..rows` that cannot be read, with the reason.
pub open spec fn first_bad_ppm_row(len: int, width: int, stride: int, from: int, rows: int) -> Option<PpmError>
    decreases rows - from,
{
    if from < 0 || from >= rows {
        None
    } else if from * stride > usize::MAX || from * stride + width * 4 > usize::MAX {
        Some(PpmError::RowOffsetOverflow)
    } else if from * stride + width * 4 > len {
        Some(PpmError::RowOutOfBounds)
    } else {
        first_bad_ppm_row(len, width, stride, from + 1, rows)
    }
}

/// Encodes a frame as a binary (P6) PPM image: the header, then every pixel's
/// red, green and blue bytes, row by row.
pub fn encode_ppm(frame: &CapturedFrame) -> (r: Result<Vec<u8>, PpmError>)
    requires
        frame.width * 4 <= usize::MAX,
    ensures
        match first_bad_ppm_row(frame.pixels@.len() as int, frame.width as int, frame.stride as int, 0, frame.height as int) {
            Some(e) => r == Err::<Vec<u8>, PpmError>(e),
            None => r matches Ok(bytes) && bytes@ == ppm_header(frame.width, frame.height) + rgb_rows(
                frame.pixels@,
                frame.width as int,
                frame.stride as int,
                frame.height as int,
            ),
        },
        r matches Ok(bytes) ==> {
            let h = ppm_header(frame.width, frame.height).len() as int;
            &&& bytes@.len() == h + 3 * frame.width * frame.height
            &&& forall|row: int, col: int|
                0 <= row < frame.height && 0 <= col < frame.width ==> #[trigger] ppm_body_pixel(
                    bytes@,
                    h,
                    frame.width as int,
                    row,
                    col,
                ) == frame_pixel_rgb(frame.pixels@, frame.stride as int, row, col)
        },
{
    let mut ppm: Vec<u8> = Vec::new();
    ppm.push(0x50);
    ppm.push(0x36);
    ppm.push(0x0a);
    push_decimal(&mut ppm, frame.width);
    ppm.push(0x20);
    push_decimal(&mut ppm, frame.height);
    ppm.push(0x0a);
    ppm.push(0x32);
    ppm.push(0x35);
    ppm.push(0x35);
    ppm.push(0x0a);
    let ghost header = ppm@;
    assert(header =~= ppm_header(frame.width, frame.height));
    let width = frame.width as usize;
    let stride = frame.stride as usize;
    let height = frame.height as usize;
    let mut row: usize = 0;
    while row < height
        invariant
            width == frame.width,
            stride == frame.stride,
            height == frame.height,
            width * 4 <= usize::MAX,
            0 <= row <= height,
            ppm@ == header + rgb_rows(frame.pixels@, width as int, stride as int, row as int),
            first_bad_ppm_row(frame.pixels@.len() as int, width as int, stride as int, 0, height as int)
                == first_bad_ppm_row(frame.pixels@.len() as int, width as int, stride as int, row as int, height as int),
        decreases height - row,
    {
        let row_start = match row.checked_mul(stride) {
            Some(v) => v,
            None => return Err(PpmError::RowOffsetOverflow),
        };
        let row_end = match row_start.checked_add(width * BYTES_PER_PIXEL) {
            Some(v) => v,
            None => return Err(PpmError::RowOffsetOverflow),
        };
        if row_end > frame.pixels.len() {
            return Err(PpmError::RowOutOfBounds);
        }
        let ghost before = ppm@;
        let mut col: usize = 0;
        while col < width
            invariant
                width == frame.width,
                row_end == row_start + width * 4,
                row_end <= frame.pixels@.len(),
                0 <= col <= width,
                ppm@ == before + rgb_row(frame.pixels@, row_start as int, width as int).take(3 * col as int),
            decreases width - col,
        {
            let base = row_start + col * 4;
            ppm.push(frame.pixels[base + 2]);
            ppm.push(frame.pixels[base + 1]);
            ppm.push(frame.pixels[base]);
            assert(ppm@ =~= before + rgb_row(frame.pixels@, row_start as int, width as int).take(3 * col + 3));
            col = col + 1;
        }
        assert(rgb_row(frame.pixels@, row_start as int, width as int).take(3 * width as int) =~= rgb_row(frame.pixels@, row_start as int, width as int));
        assert(ppm@ =~= header + rgb_rows(frame.pixels@, width as int, stride as int, row + 1));
        row = row + 1;
    }
    proof {
        let body = rgb_rows(frame.pixels@, width as int, stride as int, height as int);
        let h = header.len() as int;
        lemma_rgb_rows_len(frame.pixels@, width as int, stride as int, height as int);
        assert forall|rr: int, cc: int|
            0 <= rr < frame.height && 0 <= cc < frame.width implies #[trigger] ppm_body_pixel(
            ppm@,
            h,
            frame.width as int,
            rr,
            cc,
        ) == frame_pixel_rgb(frame.pixels@, frame.stride as int, rr, cc) by {
            lemma_ppm_body_pixel(frame.pixels@, width as int, stride as int, height as int, rr, cc);
            let at = 3 * (rr * (width as int) + cc);
            assert(0 <= at && at + 2 < 3 * (width as int) * (height as int)) by (nonlinear_arith)
                requires
                    at == 3 * (rr * (width as int) + cc),
                    0 <= rr < height,
                    0 <= cc < width,
            ;
            assert(ppm@[h + at] == body[at]);
            assert(ppm@[h + at + 1] == body[at + 1]);
            assert(ppm@[h + at + 2] == body[at + 2]);
        }
    }
    Ok(ppm)
}

} // verus!
