//! Drawing into a packed 32-bit canvas: rectangles and 8x8 bitmap text.
//!
//! A canvas is a byte buffer of `width` x `height` pixels, row after row,
//! each pixel four bytes: the little-endian bytes of a packed color word
//! (blue, green, red, alpha). Pixel `p` covers bytes `4p .. 4p + 4`; its
//! column is `p % width` and its row `p / width`. Byte offsets of pixels are
//! computed in 32 bits, so the drawing functions ask that the whole canvas,
//! `width * height * 4` bytes, fit in a `u32`.
use crate::color::Color;
use crate::text::{chars_of, decimal_text, lemma_decimal_text_len, pow10, push_decimal_chars};
use vstd::arithmetic::div_mod::{lemma_fundamental_div_mod, lemma_fundamental_div_mod_converse};
use vstd::prelude::*;

verus! {

/// The packed word of a color: alpha, red, green, blue from high byte to low.
pub open spec fn packed(c: (u8, u8, u8, u8)) -> u32 {
    ((c.3 as u32) << 24u32) | ((c.0 as u32) << 16u32) | ((c.1 as u32) << 8u32) | (c.2 as u32)
}

/// The four bytes a pixel holds for a packed word, lowest byte first.
pub open spec fn word_bytes(w: u32) -> Seq<u8> {
    seq![(w & 0xff) as u8, ((w >> 8u32) & 0xff) as u8, ((w >> 16u32) & 0xff) as u8, ((w >> 24u32) & 0xff) as u8]
}

/// Packs a color into the canvas word format.
pub fn pack_color(color: Color) -> (r: u32)
    ensures
        r == packed(color@),
        word_bytes(r) == seq![color@.2, color@.1, color@.0, color@.3],
{
    let c = color.rgba8();
    let (r, g, b, a) = (c[0], c[1], c[2], c[3]);
    let w: u32 = ((a as u32) << 24u32) | ((r as u32) << 16u32) | ((g as u32) << 8u32) | (b as u32);
    assert((w & 0xff) as u8 == b && ((w >> 8u32) & 0xff) as u8 == g && ((w >> 16u32) & 0xff) as u8
        == r && ((w >> 24u32) & 0xff) as u8 == a) by (bit_vector)
        requires
            w == ((a as u32) << 24u32) | ((r as u32) << 16u32) | ((g as u32) << 8u32) | (b as u32),
    ;
    assert(word_bytes(w) =~= seq![b, g, r, a]);
    w
}

fn word_to_bytes(w: u32) -> (r: [u8; 4])
    ensures
        r@ == word_bytes(w),
{
    let r = [
        (w & 0xff) as u8,
        ((w >> 8u32) & 0xff) as u8,
        ((w >> 16u32) & 0xff) as u8,
        ((w >> 24u32) & 0xff) as u8,
    ];
    assert(r@ =~= word_bytes(w));
    r
}

/// Byte length of a `width` x `height` canvas.
pub fn buffer_len(width: u32, height: u32) -> (r: usize)
    requires
        width * height * 4 <= usize::MAX,
    ensures
        r == width * height * 4,
{
    assert(width * height <= width * height * 4) by (nonlinear_arith);
    (width as usize) * (height as usize) * 4
}

/// `canvas` with every pixel for which `covered(column, row)` holds set to
/// `bytes`; other bytes unchanged.
pub open spec fn paint(
    canvas: Seq<u8>,
    width: int,
    covered: spec_fn(int, int) -> bool,
    bytes: Seq<u8>,
) -> Seq<u8> {
    Seq::new(
        canvas.len(),
        |i: int| if covered((i / 4) % width, (i / 4) / width) { bytes[i % 4] } else { canvas[i] },
    )
}

/// Every whole pixel of `canvas` set to `bytes`; a trailing partial pixel
/// is left alone.
pub open spec fn filled(canvas: Seq<u8>, bytes: Seq<u8>) -> Seq<u8> {
    Seq::new(
        canvas.len(),
        |i: int| if i < canvas.len() - canvas.len() % 4 { bytes[i % 4] } else { canvas[i] },
    )
}

/// Sets every whole pixel of the canvas to `color`.
#[verifier::spinoff_prover]
#[verifier::rlimit(40)]
pub fn fill(canvas: &mut Vec<u8>, color: u32)
    ensures
        final(canvas)@ == filled(old(canvas)@, word_bytes(color)),
{
    let bytes = word_to_bytes(color);
    let n = canvas.len();
    let whole = n - n % 4;
    let mut i: usize = 0;
    while i < whole
        invariant
            canvas.len() == n,
            whole == n - n % 4,
            0 <= i <= whole,
            i % 4 == 0,
            bytes@ == word_bytes(color),
            forall|k: int| 0 <= k < i ==> #[trigger] canvas@[k] == bytes@[k % 4],
            forall|k: int| i <= k < n ==> #[trigger] canvas@[k] == old(canvas)@[k],
        decreases whole - i,
    {
        canvas.set(i, bytes[0]);
        canvas.set(i + 1, bytes[1]);
        canvas.set(i + 2, bytes[2]);
        canvas.set(i + 3, bytes[3]);
        assert forall|k: int| 0 <= k < i + 4 implies #[trigger] canvas@[k] == bytes@[k % 4] by {
            if k >= i {
                assert((k - i) % 4 == k % 4);
            }
        }
        i = i + 4;
    }
    assert(canvas@ =~= filled(old(canvas)@, word_bytes(color)));
}

/// Pixel `q` sits at column `col` of row `row` exactly when `q` is
/// `row * width + col`.
proof fn lemma_pixel_coords(q: int, width: int, row: int, col: int)
    requires
        width > 0,
        0 <= col < width,
        0 <= row,
        q >= 0,
    ensures
        (q == row * width + col) <==> (q % width == col && q / width == row),
{
    if q == row * width + col {
        lemma_fundamental_div_mod_converse(q, width, row, col);
    }
    if q % width == col && q / width == row {
        lemma_fundamental_div_mod(q, width);
        assert(q == width * (q / width) + q % width);
        assert(width * row == row * width) by (nonlinear_arith);
    }
}

/// Sets the 4 bytes of pixel `pixel`.
fn set_pixel(canvas: &mut Vec<u8>, pixel: usize, bytes: &[u8; 4])
    requires
        pixel * 4 + 4 <= old(canvas).len(),
    ensures
        final(canvas)@ == Seq::new(
            old(canvas)@.len(),
            |i: int| if i / 4 == pixel { bytes@[i % 4] } else { old(canvas)@[i] },
        ),
{
    let i = pixel * 4;
    canvas.set(i, bytes[0]);
    canvas.set(i + 1, bytes[1]);
    canvas.set(i + 2, bytes[2]);
    canvas.set(i + 3, bytes[3]);
    assert(canvas@ =~= Seq::new(
        old(canvas)@.len(),
        |i: int| if i / 4 == pixel { bytes@[i % 4] } else { old(canvas)@[i] },
    ));
}

/// The pixels of the half-open rectangle `[x0, x1) x [y0, y1)`.
pub open spec fn in_rect(x0: int, y0: int, x1: int, y1: int) -> spec_fn(int, int) -> bool {
    |c: int, r: int| x0 <= c < x1 && y0 <= r < y1
}

/// Sets every pixel of the rectangle `[x0, x1) x [y0, y1)` to `color`.
pub fn fill_pixel_rect(
    canvas: &mut Vec<u8>,
    width: u32,
    height: u32,
    x0: u32,
    y0: u32,
    x1: u32,
    y1: u32,
    color: u32,
)
    requires
        x1 <= width,
        y1 <= height,
        width * height * 4 <= old(canvas).len(),
        width * height * 4 <= u32::MAX,
    ensures
        final(canvas)@ == paint(old(canvas)@, width as int, in_rect(x0 as int, y0 as int, x1 as int, y1 as int), word_bytes(color)),
{
    let bytes = word_to_bytes(color);
    let ghost orig = canvas@;
    let ghost w = width as int;
    let mut row = y0;
    if x0 >= x1 || y0 >= y1 {
        assert(canvas@ =~= paint(orig, w, in_rect(x0 as int, y0 as int, x1 as int, y1 as int), word_bytes(color)));
        return;
    }
    while row < y1
        invariant
            x0 < x1 <= width,
            y0 <= row <= y1 <= height,
            w == width,
            width * height * 4 <= orig.len(),
            width * height * 4 <= u32::MAX,
            canvas@.len() == orig.len(),
            bytes@ == word_bytes(color),
            canvas@ == paint(orig, w, in_rect(x0 as int, y0 as int, x1 as int, row as int), bytes@),
        decreases y1 - row,
    {
        assert((row as int) * w + (x1 as int) <= w * (height as int)) by (nonlinear_arith)
            requires
                row < height,
                x1 <= w,
        ;
        let mut col = x0;
        while col < x1
            invariant
                x0 <= col <= x1 <= width,
                y0 <= row < y1 <= height,
                w == width,
                (row as int) * w + (x1 as int) <= w * (height as int),
                width * height * 4 <= orig.len(),
                width * height * 4 <= u32::MAX,
                canvas@.len() == orig.len(),
                bytes@ == word_bytes(color),
                canvas@ == Seq::new(
                    orig.len(),
                    |i: int| if in_rect(x0 as int, y0 as int, x1 as int, row as int)((i / 4) % w, (i / 4) / w)
                        || ((i / 4) / w == row && x0 <= (i / 4) % w < col) { bytes@[i % 4] } else { orig[i] },
                ),
            decreases x1 - col,
        {
            let pixel: usize = (row as usize) * (width as usize) + (col as usize);
            let ghost before = canvas@;
            set_pixel(canvas, pixel, &bytes);
            assert forall|i: int| 0 <= i < canvas@.len() implies canvas@[i] == (if in_rect(
                x0 as int,
                y0 as int,
                x1 as int,
                row as int,
            )((i / 4) % w, (i / 4) / w) || ((i / 4) / w == row && x0 <= (i / 4) % w < col + 1) {
                bytes@[i % 4]
            } else {
                orig[i]
            }) by {
                lemma_pixel_coords(i / 4, w, row as int, col as int);
            }
            assert(canvas@ =~= Seq::new(
                orig.len(),
                |i: int| if in_rect(x0 as int, y0 as int, x1 as int, row as int)((i / 4) % w, (i / 4) / w)
                    || ((i / 4) / w == row && x0 <= (i / 4) % w < col + 1) { bytes@[i % 4] } else { orig[i] },
            ));
            col = col + 1;
        }
        assert(canvas@ =~= paint(orig, w, in_rect(x0 as int, y0 as int, x1 as int, row + 1), bytes@));
        row = row + 1;
    }
}


/// Whether `v` fits in an `i32`.
pub open spec fn in_i32(v: int) -> bool {
    i32::MIN <= v <= i32::MAX
}

pub open spec fn clamp_lo0(v: int) -> int {
    if v < 0 {
        0
    } else {
        v
    }
}

pub open spec fn min_int(a: int, b: int) -> int {
    if a < b {
        a
    } else {
        b
    }
}

/// The pixels of the rectangle at (`x`, `y`) of size `w` x `h`, clipped to a
/// `width` x `height` canvas.
pub open spec fn clipped_rect(x: int, y: int, w: int, h: int, width: int, height: int) -> spec_fn(
    int,
    int,
) -> bool {
    in_rect(
        clamp_lo0(x),
        clamp_lo0(y),
        clamp_lo0(min_int(x + w, width)),
        clamp_lo0(min_int(y + h, height)),
    )
}

/// Sets the pixels of the rectangle at (`x`, `y`) of size `rect_width` x
/// `rect_height` that fall on the canvas to `color`.
pub fn fill_rect(
    canvas: &mut Vec<u8>,
    width: u32,
    height: u32,
    x: i32,
    y: i32,
    rect_width: i32,
    rect_height: i32,
    color: u32,
)
    requires
        width * height * 4 <= old(canvas).len(),
        width * height * 4 <= u32::MAX,
        in_i32(x + rect_width),
        in_i32(y + rect_height),
    ensures
        final(canvas)@ == paint(
            old(canvas)@,
            width as int,
            clipped_rect(x as int, y as int, rect_width as int, rect_height as int, width as int, height as int),
            word_bytes(color),
        ),
{
    if width == 0 || height == 0 {
        assert(canvas@ =~= paint(
            canvas@,
            width as int,
            clipped_rect(x as int, y as int, rect_width as int, rect_height as int, width as int, height as int),
            word_bytes(color),
        ));
        return;
    }
    assert(width * 4 <= width * height * 4 && height * 4 <= width * height * 4) by (nonlinear_arith)
        requires
            width > 0,
            height > 0,
    ;
    let wi = width as i32;
    let hi = height as i32;
    assert(wi as int == width as int && hi as int == height as int);
    let x0: i32 = if x < 0 { 0 } else { x };
    let y0: i32 = if y < 0 { 0 } else { y };
    let xe: i32 = if x + rect_width < wi { x + rect_width } else { wi };
    let ye: i32 = if y + rect_height < hi { y + rect_height } else { hi };
    let x1: i32 = if xe < 0 { 0 } else { xe };
    let y1: i32 = if ye < 0 { 0 } else { ye };
    assert(x0 as u32 as int == clamp_lo0(x as int));
    assert(y0 as u32 as int == clamp_lo0(y as int));
    assert(x1 as u32 as int == clamp_lo0(min_int(x + rect_width, width as int)));
    assert(y1 as u32 as int == clamp_lo0(min_int(y + rect_height, height as int)));
    fill_pixel_rect(canvas, width, height, x0 as u32, y0 as u32, x1 as u32, y1 as u32, color);
}

/// Whether bit `col` (least significant first) of a glyph row is set.
pub open spec fn glyph_bit(bits: u8, col: int) -> bool {
    ((bits >> (col as u8)) & 1u8) == 1u8
}

/// Glyph row shown in cell row `cell_row` of a glyph drawn top-down or
/// bottom-up.
pub open spec fn glyph_row(cell_row: int, bottom_up: bool) -> int {
    if bottom_up {
        7 - cell_row
    } else {
        cell_row
    }
}

/// The pixels lit by an 8x8 glyph drawn at (`x`, `y`) with `scale` x `scale`
/// cells; `bottom_up` draws the glyph's first row at the bottom.
pub open spec fn glyph_covers(glyph: Seq<u8>, x: int, y: int, scale: int, bottom_up: bool) -> spec_fn(
    int,
    int,
) -> bool {
    |c: int, r: int|
        scale > 0 && x <= c < x + 8 * scale && y <= r < y + 8 * scale && glyph_bit(
            glyph[glyph_row((r - y) / scale, bottom_up)],
            (c - x) / scale,
        )
}

/// `f` restricted to a `width` x `height` canvas.
pub open spec fn clip(f: spec_fn(int, int) -> bool, width: int, height: int) -> spec_fn(int, int) -> bool {
    |c: int, r: int| 0 <= c < width && 0 <= r < height && f(c, r)
}

/// Painting twice with the same bytes paints the union.
proof fn lemma_paint_twice(
    s: Seq<u8>,
    width: int,
    a: spec_fn(int, int) -> bool,
    b: spec_fn(int, int) -> bool,
    bytes: Seq<u8>,
)
    ensures
        paint(paint(s, width, a, bytes), width, b, bytes) == paint(s, width, |c: int, r: int| a(c, r) || b(c, r), bytes),
{
    assert(paint(paint(s, width, a, bytes), width, b, bytes) =~= paint(s, width, |c: int, r: int| a(c, r) || b(c, r), bytes));
}

/// Painting with coverage functions that agree on every pixel gives the
/// same canvas.
proof fn lemma_paint_same(
    s: Seq<u8>,
    width: int,
    a: spec_fn(int, int) -> bool,
    b: spec_fn(int, int) -> bool,
    bytes: Seq<u8>,
)
    requires
        width > 0,
        forall|c: int, r: int| 0 <= c < width && 0 <= r ==> #[trigger] a(c, r) == b(c, r),
    ensures
        paint(s, width, a, bytes) == paint(s, width, b, bytes),
{
    assert forall|i: int| 0 <= i < s.len() implies paint(s, width, a, bytes)[i] == paint(s, width, b, bytes)[i] by {
        let q = i / 4;
        assert(q >= 0);
        assert(0 <= q % width < width);
        assert(q / width >= 0) by (nonlinear_arith)
            requires
                q >= 0,
                width > 0,
        ;
        assert(a(q % width, q / width) == b(q % width, q / width));
    }
    assert(paint(s, width, a, bytes) =~= paint(s, width, b, bytes));
}

/// Cell `k` of a run of cells of size `scale` starting at `x` holds exactly
/// the positions whose offset from `x` divides down to `k`.
proof fn lemma_cell_index(c: int, x: int, scale: int, k: int)
    requires
        scale > 0,
        0 <= k,
    ensures
        (x + k * scale <= c < x + k * scale + scale) <==> (c >= x && (c - x) / scale == k),
{
    if x + k * scale <= c < x + k * scale + scale {
        lemma_fundamental_div_mod_converse(c - x, scale, k, c - x - k * scale);
    }
    if c >= x && (c - x) / scale == k {
        lemma_fundamental_div_mod(c - x, scale);
        assert(scale * ((c - x) / scale) == k * scale) by (nonlinear_arith)
            requires
                (c - x) / scale == k,
        ;
    }
}

/// The glyph cells of rows before `cell_row`, and of row `cell_row` before
/// column `col`, that are lit.
pub open spec fn cells_done(
    glyph: Seq<u8>,
    x: int,
    y: int,
    scale: int,
    bottom_up: bool,
    cell_row: int,
    col: int,
) -> spec_fn(int, int) -> bool {
    |c: int, r: int|
        glyph_covers(glyph, x, y, scale, bottom_up)(c, r) && ((r - y) / scale < cell_row || ((r - y)
            / scale == cell_row && (c - x) / scale < col))
}

/// Draws an 8x8 glyph at (`x`, `y`) with `scale` x `scale` cells.
fn draw_glyph(
    canvas: &mut Vec<u8>,
    width: u32,
    height: u32,
    x: i32,
    y: i32,
    scale: i32,
    glyph: &[u8; 8],
    color: u32,
    bottom_up: bool,
)
    requires
        width * height * 4 <= old(canvas).len(),
        width * height * 4 <= u32::MAX,
        in_i32(8 * scale),
        in_i32(x + 8 * scale),
        in_i32(y + 8 * scale),
    ensures
        final(canvas)@ == paint(
            old(canvas)@,
            width as int,
            clip(glyph_covers(glyph@, x as int, y as int, scale as int, bottom_up), width as int, height as int),
            word_bytes(color),
        ),
{
    let ghost orig = canvas@;
    let ghost w = width as int;
    let ghost h = height as int;
    let ghost cov = glyph_covers(glyph@, x as int, y as int, scale as int, bottom_up);
    if scale <= 0 || width == 0 {
        assert(canvas@ =~= paint(orig, w, clip(cov, w, h), word_bytes(color)));
        return;
    }
    let mut cell_row: i32 = 0;
    while cell_row < 8
        invariant
            0 <= cell_row <= 8,
            scale > 0,
            width > 0,
            w == width,
            h == height,
            in_i32(8 * scale),
            in_i32(x + 8 * scale),
            in_i32(y + 8 * scale),
            width * height * 4 <= orig.len(),
            width * height * 4 <= u32::MAX,
            cov == glyph_covers(glyph@, x as int, y as int, scale as int, bottom_up),
            canvas@ == paint(orig, w, clip(cells_done(glyph@, x as int, y as int, scale as int, bottom_up, cell_row as int, 0), w, h), word_bytes(color)),
        decreases 8 - cell_row,
    {
        let bits = if bottom_up { glyph[(7 - cell_row) as usize] } else { glyph[cell_row as usize] };
        assert(bits == glyph@[glyph_row(cell_row as int, bottom_up)]);
        assert(0 <= cell_row * scale <= 7 * scale) by (nonlinear_arith)
            requires
                0 <= cell_row < 8,
                scale > 0,
        ;
        let py = y + cell_row * scale;
        let mut col: i32 = 0;
        while col < 8
            invariant
                0 <= cell_row < 8,
                0 <= col <= 8,
                scale > 0,
                width > 0,
                w == width,
                h == height,
                in_i32(8 * scale),
                in_i32(x + 8 * scale),
                in_i32(y + 8 * scale),
                py == y + cell_row * scale,
                0 <= cell_row * scale <= 7 * scale,
                bits == glyph@[glyph_row(cell_row as int, bottom_up)],
                width * height * 4 <= orig.len(),
                width * height * 4 <= u32::MAX,
                cov == glyph_covers(glyph@, x as int, y as int, scale as int, bottom_up),
                canvas@ == paint(orig, w, clip(cells_done(glyph@, x as int, y as int, scale as int, bottom_up, cell_row as int, col as int), w, h), word_bytes(color)),
            decreases 8 - col,
        {
            assert(0 <= col * scale <= 7 * scale) by (nonlinear_arith)
                requires
                    0 <= col < 8,
                    scale > 0,
            ;
            let ghost prev = cells_done(glyph@, x as int, y as int, scale as int, bottom_up, cell_row as int, col as int);
            let ghost next = cells_done(glyph@, x as int, y as int, scale as int, bottom_up, cell_row as int, col as int + 1);
            let lit = ((bits >> (col as u8)) & 1u8) == 1u8;
            let px = x + col * scale;
            if lit {
                let ghost mid = canvas@;
                fill_rect(canvas, width, height, px, py, scale, scale, color);
                proof {
                    let cell = clipped_rect(px as int, py as int, scale as int, scale as int, w, h);
                    lemma_paint_twice(orig, w, clip(prev, w, h), cell, word_bytes(color));
                    assert forall|c: int, r: int| 0 <= c < w && 0 <= r implies (clip(prev, w, h)(c, r) || cell(c, r)) == #[trigger] clip(next, w, h)(c, r) by {
                        lemma_cell_index(c, x as int, scale as int, col as int);
                        lemma_cell_index(r, y as int, scale as int, cell_row as int);
                        lemma_cell_index(c, x as int, scale as int, 8);
                        lemma_cell_index(r, y as int, scale as int, 8);
                        if c >= x && (c - x) / (scale as int) < 8 {
                            lemma_cell_index(c, x as int, scale as int, (c - x) / (scale as int));
                        }
                        if r >= y && (r - y) / (scale as int) < 8 {
                            lemma_cell_index(r, y as int, scale as int, (r - y) / (scale as int));
                        }
                        assert(c >= x + 8 * scale ==> (c - x) / (scale as int) >= 8) by {
                            if c >= x + 8 * scale && (c - x) / (scale as int) < 8 {
                                lemma_fundamental_div_mod(c - x, scale as int);
                                assert(scale * ((c - x) / (scale as int)) <= scale * 7) by (nonlinear_arith)
                                    requires (c - x) / (scale as int) < 8, scale > 0;
                            }
                        }
                        assert(r >= y + 8 * scale ==> (r - y) / (scale as int) >= 8) by {
                            if r >= y + 8 * scale && (r - y) / (scale as int) < 8 {
                                lemma_fundamental_div_mod(r - y, scale as int);
                                assert(scale * ((r - y) / (scale as int)) <= scale * 7) by (nonlinear_arith)
                                    requires (r - y) / (scale as int) < 8, scale > 0;
                            }
                        }
                    }
                    lemma_paint_same(orig, w, |c: int, r: int| clip(prev, w, h)(c, r) || cell(c, r), clip(next, w, h), word_bytes(color));
                }
            } else {
                proof {
                    assert forall|c: int, r: int| 0 <= c < w && 0 <= r implies clip(prev, w, h)(c, r) == #[trigger] clip(next, w, h)(c, r) by {
                        if c >= x && (c - x) / (scale as int) == col && r >= y && (r - y) / (scale as int) == cell_row {
                            assert(!glyph_bit(bits, col as int));
                        }
                    }
                    lemma_paint_same(orig, w, clip(prev, w, h), clip(next, w, h), word_bytes(color));
                }
            }
            col = col + 1;
        }
        proof {
            let a = clip(cells_done(glyph@, x as int, y as int, scale as int, bottom_up, cell_row as int, 8), w, h);
            let b = clip(cells_done(glyph@, x as int, y as int, scale as int, bottom_up, cell_row as int + 1, 0), w, h);
            assert forall|c: int, r: int| 0 <= c < w && 0 <= r implies #[trigger] a(c, r) == b(c, r) by {
                if cov(c, r) {
                    lemma_cell_index(c, x as int, scale as int, 8);
                    if (c - x) / (scale as int) >= 8 {
                        lemma_fundamental_div_mod(c - x, scale as int);
                        assert(scale * ((c - x) / (scale as int)) >= scale * 8) by (nonlinear_arith)
                            requires (c - x) / (scale as int) >= 8, scale > 0;
                    }
                }
            }
            lemma_paint_same(orig, w, a, b, word_bytes(color));
        }
        cell_row = cell_row + 1;
    }
    proof {
        let a = clip(cells_done(glyph@, x as int, y as int, scale as int, bottom_up, 8, 0), w, h);
        assert forall|c: int, r: int| 0 <= c < w && 0 <= r implies #[trigger] a(c, r) == clip(cov, w, h)(c, r) by {
            if cov(c, r) {
                if (r - y) / (scale as int) >= 8 {
                    lemma_fundamental_div_mod(r - y, scale as int);
                    assert(scale * ((r - y) / (scale as int)) >= scale * 8) by (nonlinear_arith)
                        requires (r - y) / (scale as int) >= 8, scale > 0;
                }
            }
        }
        lemma_paint_same(orig, w, a, clip(cov, w, h), word_bytes(color));
    }
}


/// The bitmap `font8x8` holds for `c` in its basic (U+0000 to U+007F) set,
/// one byte per row, top row first, least significant bit leftmost.
pub uninterp spec fn basic_glyph(c: char) -> Seq<u8>;

/// `font8x8`'s `BASIC_FONTS.get(c)`. Its table holds one entry for each of
/// the 128 code points U+0000 to U+007F, so the lookup succeeds exactly for
/// those; the bitmap itself is named, not stated.
#[verifier::external_body]
fn basic_font_glyph(c: char) -> (r: Option<[u8; 8]>)
    ensures
        r.is_some() == ((c as u32) < 128),
        r.is_some() ==> r.unwrap()@ == basic_glyph(c),
{
    font8x8::UnicodeFonts::get(&font8x8::BASIC_FONTS, c)
}

/// Horizontal distance from one character to the next at `scale`.
pub open spec fn advance(scale: int) -> int {
    8 * scale + if scale > 1 {
        scale
    } else {
        1
    }
}

/// Whether character `c` is drawn: spaces and characters outside the basic
/// font are skipped (but still take up room).
pub open spec fn drawn_char(c: char) -> bool {
    c != ' ' && (c as u32) < 128
}

/// The pixels lit by the first `n` characters of `chars` drawn from
/// (`x`, `y`).
pub open spec fn text_covers(
    chars: Seq<char>,
    x: int,
    y: int,
    scale: int,
    bottom_up: bool,
    n: nat,
) -> spec_fn(int, int) -> bool
    decreases n,
{
    if n == 0 {
        |c: int, r: int| false
    } else {
        let prev = text_covers(chars, x, y, scale, bottom_up, (n - 1) as nat);
        let ch = chars[n - 1];
        if drawn_char(ch) {
            |c: int, r: int|
                prev(c, r) || glyph_covers(basic_glyph(ch), x + (n - 1) * advance(scale), y, scale, bottom_up)(c, r)
        } else {
            prev
        }
    }
}

/// Whether every coordinate used to draw `n` characters from (`x`, `y`)
/// fits in an `i32`.
pub open spec fn text_fits(x: int, y: int, scale: int, n: int) -> bool {
    &&& in_i32(x)
    &&& in_i32(8 * scale)
    &&& in_i32(advance(scale))
    &&& in_i32(y + 8 * scale)
    &&& in_i32(x + 8 * scale)
    &&& in_i32(x + n * advance(scale))
    &&& in_i32(x + n * advance(scale) + 8 * scale)
}

proof fn lemma_between(k: int, n: int, a: int)
    requires
        0 <= k <= n,
    ensures
        (a >= 0 ==> 0 <= k * a <= n * a),
        (a < 0 ==> n * a <= k * a <= 0),
{
    if a >= 0 {
        assert(0 <= k * a <= n * a) by (nonlinear_arith)
            requires
                0 <= k <= n,
                a >= 0,
        ;
    } else {
        assert(n * a <= k * a <= 0) by (nonlinear_arith)
            requires
                0 <= k <= n,
                a < 0,
        ;
    }
}

/// Draws `chars` left to right from (`x`, `y`).
pub fn draw_chars(
    canvas: &mut Vec<u8>,
    width: u32,
    height: u32,
    x: i32,
    y: i32,
    scale: i32,
    chars: &[char],
    color: u32,
    bottom_up: bool,
)
    requires
        width * height * 4 <= old(canvas).len(),
        width * height * 4 <= u32::MAX,
        text_fits(x as int, y as int, scale as int, chars@.len() as int),
    ensures
        final(canvas)@ == paint(
            old(canvas)@,
            width as int,
            clip(text_covers(chars@, x as int, y as int, scale as int, bottom_up, chars@.len()), width as int, height as int),
            word_bytes(color),
        ),
{
    let ghost orig = canvas@;
    let ghost w = width as int;
    let ghost h = height as int;
    let ghost n = chars@.len() as int;
    let spacing: i32 = if scale > 1 { scale } else { 1 };
    let step: i32 = 8 * scale + spacing;
    let mut cursor_x: i32 = x;
    let mut i: usize = 0;
    if width == 0 {
        assert(canvas@ =~= paint(orig, w, clip(text_covers(chars@, x as int, y as int, scale as int, bottom_up, chars@.len()), w, h), word_bytes(color)));
        return;
    }
    assert(canvas@ =~= paint(orig, w, clip(text_covers(chars@, x as int, y as int, scale as int, bottom_up, 0), w, h), word_bytes(color)));
    while i < chars.len()
        invariant
            0 <= i <= chars@.len(),
            n == chars@.len(),
            width > 0,
            w == width,
            h == height,
            step == advance(scale as int),
            cursor_x == x + i * advance(scale as int),
            text_fits(x as int, y as int, scale as int, n),
            width * height * 4 <= orig.len(),
            width * height * 4 <= u32::MAX,
            canvas@ == paint(orig, w, clip(text_covers(chars@, x as int, y as int, scale as int, bottom_up, i as nat), w, h), word_bytes(color)),
        decreases chars@.len() - i,
    {
        proof {
            lemma_between(i as int, n, advance(scale as int));
            lemma_between(i as int + 1, n, advance(scale as int));
            let a = advance(scale as int);
            assert((i as int + 1) * a == i * a + a) by (nonlinear_arith);
        }
        let ch = chars[i];
        let ghost prev = clip(text_covers(chars@, x as int, y as int, scale as int, bottom_up, i as nat), w, h);
        let ghost next = clip(text_covers(chars@, x as int, y as int, scale as int, bottom_up, (i + 1) as nat), w, h);
        if ch != ' ' {
            match basic_font_glyph(ch) {
                Some(glyph) => {
                    draw_glyph(canvas, width, height, cursor_x, y, scale, &glyph, color, bottom_up);
                    proof {
                        let g = clip(glyph_covers(glyph@, cursor_x as int, y as int, scale as int, bottom_up), w, h);
                        lemma_paint_twice(orig, w, prev, g, word_bytes(color));
                        assert forall|c: int, r: int| 0 <= c < w && 0 <= r implies (prev(c, r) || g(c, r)) == #[trigger] next(c, r) by {}
                        lemma_paint_same(orig, w, |c: int, r: int| prev(c, r) || g(c, r), next, word_bytes(color));
                    }
                },
                None => {
                    assert(prev == next);
                },
            }
        } else {
            assert(prev == next);
        }
        cursor_x = cursor_x + step;
        i = i + 1;
    }
}

/// Draws `text` left to right from (`x`, `y`).
pub fn draw_text(
    canvas: &mut Vec<u8>,
    width: u32,
    height: u32,
    x: i32,
    y: i32,
    scale: i32,
    text: &str,
    color: u32,
    bottom_up: bool,
)
    requires
        width * height * 4 <= old(canvas).len(),
        width * height * 4 <= u32::MAX,
        text_fits(x as int, y as int, scale as int, text@.len() as int),
    ensures
        final(canvas)@ == paint(
            old(canvas)@,
            width as int,
            clip(text_covers(text@, x as int, y as int, scale as int, bottom_up, text@.len()), width as int, height as int),
            word_bytes(color),
        ),
{
    let chars = chars_of(text);
    draw_chars(canvas, width, height, x, y, scale, chars.as_slice(), color, bottom_up);
}

/// Width of `n` characters at `scale`, gaps between them included.
pub open spec fn text_width(scale: int, n: int) -> int {
    n * (8 * scale) + clamp_lo0(n - 1) * (if scale > 1 {
        scale
    } else {
        1
    })
}

/// Left edge of `n` characters centred in the span of `area_width` pixels
/// from `area_x`; text wider than the span starts at its left edge.
pub open spec fn centered_x(area_x: int, area_width: int, scale: int, n: int) -> int {
    area_x + if area_width - text_width(scale, n) > 0 {
        (area_width - text_width(scale, n)) / 2
    } else {
        0
    }
}

/// Whether the arithmetic of centring `n` characters fits in `i32`.
pub open spec fn centering_fits(area_x: int, area_width: int, scale: int, n: int) -> bool {
    &&& n <= i32::MAX
    &&& in_i32(8 * scale)
    &&& in_i32(n * (8 * scale))
    &&& in_i32(clamp_lo0(n - 1) * (if scale > 1 { scale } else { 1 }))
    &&& in_i32(text_width(scale, n))
    &&& in_i32(area_width - text_width(scale, n))
    &&& in_i32(centered_x(area_x, area_width, scale, n))
}

/// Left edge for `char_count` characters centred in a span.
pub fn centered_text_x(area_x: i32, area_width: i32, scale: i32, char_count: usize) -> (r: i32)
    requires
        centering_fits(area_x as int, area_width as int, scale as int, char_count as int),
    ensures
        r == centered_x(area_x as int, area_width as int, scale as int, char_count as int),
{
    let n = char_count as i32;
    let glyph_width = 8 * scale;
    let spacing: i32 = if scale > 1 { scale } else { 1 };
    let gaps: i32 = if n - 1 > 0 { n - 1 } else { 0 };
    let total_width = n * glyph_width + gaps * spacing;
    let room = area_width - total_width;
    let offset: i32 = if room > 0 { room / 2 } else { 0 };
    area_x + offset
}

/// Draws `text` centred in the span of `area_width` pixels from `area_x`.
pub fn draw_text_centered(
    canvas: &mut Vec<u8>,
    width: u32,
    height: u32,
    area_x: i32,
    y: i32,
    area_width: i32,
    scale: i32,
    text: &str,
    color: u32,
    bottom_up: bool,
)
    requires
        width * height * 4 <= old(canvas).len(),
        width * height * 4 <= u32::MAX,
        centering_fits(area_x as int, area_width as int, scale as int, text@.len() as int),
        text_fits(
            centered_x(area_x as int, area_width as int, scale as int, text@.len() as int),
            y as int,
            scale as int,
            text@.len() as int,
        ),
    ensures
        final(canvas)@ == paint(
            old(canvas)@,
            width as int,
            clip(
                text_covers(
                    text@,
                    centered_x(area_x as int, area_width as int, scale as int, text@.len() as int),
                    y as int,
                    scale as int,
                    bottom_up,
                    text@.len(),
                ),
                width as int,
                height as int,
            ),
            word_bytes(color),
        ),
{
    let chars = chars_of(text);
    let x = centered_text_x(area_x, area_width, scale, chars.len());
    draw_chars(canvas, width, height, x, y, scale, chars.as_slice(), color, bottom_up);
}


/// ASCII upper case of `c`; other characters are unchanged.
pub open spec fn ascii_upper(c: char) -> char {
    if 'a' <= c <= 'z' {
        ((c as u32) - 32) as char
    } else {
        c
    }
}

/// The characters of `text` in ASCII upper case.
pub fn uppercase(text: &str) -> (r: Vec<char>)
    ensures
        r@ == text@.map_values(|c: char| ascii_upper(c)),
{
    let chars = chars_of(text);
    let mut out: Vec<char> = Vec::new();
    let mut i: usize = 0;
    while i < chars.len()
        invariant
            0 <= i <= chars@.len(),
            chars@ == text@,
            out@ == chars@.take(i as int).map_values(|c: char| ascii_upper(c)),
        decreases chars@.len() - i,
    {
        let c = chars[i];
        let u = if 'a' <= c && c <= 'z' {
            ((c as u8) - 32) as char
        } else {
            c
        };
        assert(u == ascii_upper(c));
        out.push(u);
        assert(chars@.take(i + 1) =~= chars@.take(i as int).push(c));
        assert(out@ =~= chars@.take(i + 1).map_values(|c: char| ascii_upper(c)));
        i = i + 1;
    }
    assert(chars@.take(chars@.len() as int) =~= chars@);
    out
}

/// Number of bytes `c` takes in UTF-8.
pub open spec fn utf8_len(c: char) -> int {
    if (c as u32) < 0x80 {
        1
    } else if (c as u32) < 0x800 {
        2
    } else if (c as u32) < 0x10000 {
        3
    } else {
        4
    }
}

/// Number of bytes `s` takes in UTF-8.
pub open spec fn utf8_size(s: Seq<char>) -> int
    decreases s.len(),
{
    if s.len() == 0 {
        0
    } else {
        utf8_size(s.drop_last()) + utf8_len(s.last())
    }
}

/// The pieces of `s` between single spaces (as `str::split(' ')` gives
/// them: `n` spaces make `n + 1` pieces, some possibly empty).
pub open spec fn split_spaces(s: Seq<char>) -> Seq<Seq<char>>
    decreases s.len(),
{
    if s.len() == 0 {
        seq![Seq::empty()]
    } else {
        let prev = split_spaces(s.drop_last());
        if s.last() == ' ' {
            prev.push(Seq::empty())
        } else {
            prev.update(prev.len() - 1, prev.last().push(s.last()))
        }
    }
}

proof fn lemma_split_spaces_nonempty(s: Seq<char>)
    ensures
        split_spaces(s).len() >= 1,
    decreases s.len(),
{
    if s.len() > 0 {
        lemma_split_spaces_nonempty(s.drop_last());
    }
}

/// Adds `word` to the line being filled, first moving that line to the
/// finished ones when the word would make it longer than `max_len` bytes.
pub open spec fn wrap_step(
    state: (Seq<Seq<char>>, Seq<char>),
    word: Seq<char>,
    max_len: int,
) -> (Seq<Seq<char>>, Seq<char>) {
    let (lines, cur) = state;
    let projected = if cur.len() == 0 {
        utf8_size(word)
    } else {
        utf8_size(cur) + 1 + utf8_size(word)
    };
    if projected > max_len && cur.len() > 0 {
        (lines.push(cur), word)
    } else if cur.len() > 0 {
        (lines, cur.push(' ') + word)
    } else {
        (lines, cur + word)
    }
}

/// Finished lines and the line being filled after adding `words` in turn.
pub open spec fn wrap_fold(words: Seq<Seq<char>>, max_len: int) -> (Seq<Seq<char>>, Seq<char>)
    decreases words.len(),
{
    if words.len() == 0 {
        (Seq::empty(), Seq::empty())
    } else {
        wrap_step(wrap_fold(words.drop_last(), max_len), words.last(), max_len)
    }
}

fn char_utf8_len(c: char) -> (r: usize)
    ensures
        r == utf8_len(c),
{
    let v = c as u32;
    if v < 0x80 {
        1
    } else if v < 0x800 {
        2
    } else if v < 0x10000 {
        3
    } else {
        4
    }
}

proof fn lemma_utf8_size_bounds(s: Seq<char>)
    ensures
        s.len() <= utf8_size(s) <= 4 * s.len(),
    decreases s.len(),
{
    if s.len() > 0 {
        lemma_utf8_size_bounds(s.drop_last());
    }
}

proof fn lemma_utf8_size_concat(a: Seq<char>, b: Seq<char>)
    ensures
        utf8_size(a + b) == utf8_size(a) + utf8_size(b),
    decreases b.len(),
{
    if b.len() == 0 {
        assert(a + b =~= a);
    } else {
        lemma_utf8_size_concat(a, b.drop_last());
        assert((a + b).drop_last() =~= a + b.drop_last());
        assert((a + b).last() == b.last());
    }
}

/// Total number of characters in `words`.
pub open spec fn total_chars(words: Seq<Seq<char>>) -> int
    decreases words.len(),
{
    if words.len() == 0 {
        0
    } else {
        total_chars(words.drop_last()) + words.last().len()
    }
}

proof fn lemma_split_spaces_size(s: Seq<char>)
    ensures
        split_spaces(s).len() >= 1,
        total_chars(split_spaces(s)) + split_spaces(s).len() == s.len() + 1,
    decreases s.len(),
{
    if s.len() == 0 {
        let one = seq![Seq::<char>::empty()];
        assert(one.drop_last() =~= Seq::<Seq<char>>::empty());
        assert(one.last() =~= Seq::<char>::empty());
        assert(total_chars(Seq::<Seq<char>>::empty()) == 0);
        assert(total_chars(one) == 0);
    } else {
        let prev = split_spaces(s.drop_last());
        lemma_split_spaces_size(s.drop_last());
        if s.last() == ' ' {
            let pushed = prev.push(Seq::<char>::empty());
            assert(split_spaces(s) == pushed);
            assert(pushed.drop_last() =~= prev);
            assert(total_chars(pushed) == total_chars(prev));
        } else {
            let up = prev.update(prev.len() - 1, prev.last().push(s.last()));
            assert(split_spaces(s) == up);
            assert(up.drop_last() =~= prev.drop_last());
            assert(total_chars(prev) == total_chars(prev.drop_last()) + prev.last().len());
            assert(total_chars(up) == total_chars(up.drop_last()) + up.last().len());
        }
    }
}

proof fn lemma_total_chars_prefix(ws: Seq<Seq<char>>, a: int)
    requires
        0 <= a <= ws.len(),
    ensures
        total_chars(ws.take(a)) <= total_chars(ws),
    decreases ws.len() - a,
{
    if a == ws.len() {
        assert(ws.take(a) =~= ws);
    } else {
        lemma_total_chars_prefix(ws, a + 1);
        assert(ws.take(a + 1).drop_last() =~= ws.take(a));
    }
}

/// The views of a list of character vectors.
pub open spec fn views(v: Seq<Vec<char>>) -> Seq<Seq<char>> {
    v.map_values(|w: Vec<char>| w@)
}

/// Splits `text` at every single space, as `str::split(' ')` does.
pub fn split_on_spaces(text: &[char]) -> (pieces: Vec<Vec<char>>)
    ensures
        views(pieces@) == split_spaces(text@),
{
    let mut done: Vec<Vec<char>> = Vec::new();
    let mut word: Vec<char> = Vec::new();
    let mut i: usize = 0;
    assert(text@.take(0) =~= Seq::<char>::empty());
    assert(views(done@).push(word@) =~= split_spaces(text@.take(0)));
    while i < text.len()
        invariant
            0 <= i <= text@.len(),
            views(done@).push(word@) == split_spaces(text@.take(i as int)),
        decreases text@.len() - i,
    {
        let c = text[i];
        let ghost pre = text@.take(i as int);
        assert(text@.take(i + 1).drop_last() =~= pre);
        assert(text@.take(i + 1).last() == c);
        if c == ' ' {
            done.push(word);
            word = Vec::new();
            assert(views(done@).push(word@) =~= split_spaces(pre).push(Seq::empty()));
        } else {
            let ghost old_word = word@;
            word.push(c);
            let ghost prev = split_spaces(pre);
            assert(views(done@).push(word@) =~= prev.update(prev.len() - 1, prev.last().push(c)));
        }
        i = i + 1;
    }
    done.push(word);
    assert(text@.take(text@.len() as int) =~= text@);
    assert(views(done@) =~= split_spaces(text@));
    done
}

/// The lines that word wrapping gives for `words`, the unfinished last
/// line included when it is not empty.
pub open spec fn wrapped(words: Seq<Seq<char>>, max_len: int) -> Seq<Seq<char>> {
    let (lines, cur) = wrap_fold(words, max_len);
    if cur.len() > 0 {
        lines.push(cur)
    } else {
        lines
    }
}

fn utf8_size_of(s: &Vec<char>) -> (r: usize)
    requires
        4 * s@.len() <= usize::MAX,
    ensures
        r == utf8_size(s@),
{
    let mut n: usize = 0;
    let mut j: usize = 0;
    while j < s.len()
        invariant
            0 <= j <= s@.len(),
            4 * s@.len() <= usize::MAX,
            n == utf8_size(s@.take(j as int)),
            n <= 4 * j,
        decreases s@.len() - j,
    {
        assert(s@.take(j + 1).drop_last() =~= s@.take(j as int));
        n = n + char_utf8_len(s[j]);
        j = j + 1;
    }
    assert(s@.take(s@.len() as int) =~= s@);
    n
}

fn copy_chars(v: &Vec<char>) -> (r: Vec<char>)
    ensures
        r@ == v@,
{
    let mut r: Vec<char> = Vec::new();
    let mut j: usize = 0;
    while j < v.len()
        invariant
            0 <= j <= v@.len(),
            r@ == v@.take(j as int),
        decreases v@.len() - j,
    {
        r.push(v[j]);
        assert(v@.take(j + 1) =~= v@.take(j as int).push(v@[j as int]));
        j = j + 1;
    }
    assert(v@.take(v@.len() as int) =~= v@);
    r
}

/// Greedy word wrap of `words` into lines of at most `max_len` bytes.
pub fn wrap_words(words: &Vec<Vec<char>>, max_len: usize) -> (lines: Vec<Vec<char>>)
    requires
        4 * (total_chars(views(words@)) + words@.len()) <= usize::MAX,
    ensures
        views(lines@) == wrapped(views(words@), max_len as int),
{
    let ghost ws = views(words@);
    let mut lines: Vec<Vec<char>> = Vec::new();
    let mut cur: Vec<char> = Vec::new();
    let mut cur_size: usize = 0;
    let mut k: usize = 0;
    assert(ws.take(0) =~= Seq::<Seq<char>>::empty());
    proof {
        lemma_total_chars_prefix(ws, 0);
    }
    while k < words.len()
        invariant
            0 <= k <= words@.len(),
            ws == views(words@),
            4 * (total_chars(ws) + ws.len()) <= usize::MAX,
            (views(lines@), cur@) == wrap_fold(ws.take(k as int), max_len as int),
            cur_size == utf8_size(cur@),
            cur@.len() <= total_chars(ws.take(k as int)) + k,
            total_chars(ws.take(k as int)) + k <= total_chars(ws) + ws.len(),
        decreases words@.len() - k,
    {
        let ghost before = ws.take(k as int);
        assert(ws.take(k + 1).drop_last() =~= before);
        assert(ws.take(k + 1).last() == words@[k as int]@);
        proof {
            assert(total_chars(ws.take(k + 1)) == total_chars(before) + words@[k as int]@.len());
            lemma_total_chars_prefix(ws, k + 1);
            lemma_utf8_size_bounds(cur@);
            lemma_utf8_size_bounds(words@[k as int]@);
        }
        let word = &words[k];
        let word_size = utf8_size_of(word);
        let projected = if cur.len() == 0 { word_size } else { cur_size + 1 + word_size };
        if projected > max_len && cur.len() > 0 {
            lines.push(cur);
            cur = copy_chars(word);
            cur_size = word_size;
            proof {
                assert(views(lines@) =~= views(lines@).drop_last().push(views(lines@).last()));
            }
        } else {
            let ghost base = cur@;
            if cur.len() > 0 {
                cur.push(' ');
                cur_size = cur_size + 1;
                proof {
                    assert(base.push(' ').drop_last() =~= base);
                    assert(utf8_size(base.push(' ')) == utf8_size(base) + 1);
                }
            }
            let ghost mid = cur@;
            let mut j: usize = 0;
            while j < word.len()
                invariant
                    0 <= j <= word@.len(),
                    cur@ == mid + word@.take(j as int),
                decreases word@.len() - j,
            {
                cur.push(word[j]);
                assert(word@.take(j + 1) =~= word@.take(j as int).push(word@[j as int]));
                j = j + 1;
            }
            assert(word@.take(word@.len() as int) =~= word@);
            proof {
                lemma_utf8_size_concat(mid, word@);
                assert(cur_size == utf8_size(mid));
                assert(cur@ == mid + word@);
            }
            cur_size = cur_size + word_size;
        }
        k = k + 1;
    }
    assert(ws.take(words@.len() as int) =~= ws);
    if cur.len() > 0 {
        lines.push(cur);
        assert(views(lines@) =~= wrapped(ws, max_len as int));
    } else {
        assert(views(lines@) =~= wrapped(ws, max_len as int));
    }
    lines
}


/// Vertical distance between wrapped lines at `scale`.
pub open spec fn line_step(scale: int) -> int {
    12 * scale
}

/// The pixels lit by the first `n` of `lines`, line `k` drawn from
/// (`x`, `y + k * line_step(scale)`).
pub open spec fn lines_cover(
    lines: Seq<Seq<char>>,
    x: int,
    y: int,
    scale: int,
    bottom_up: bool,
    n: nat,
) -> spec_fn(int, int) -> bool
    decreases n,
{
    if n == 0 {
        |c: int, r: int| false
    } else {
        let prev = lines_cover(lines, x, y, scale, bottom_up, (n - 1) as nat);
        let line = lines[n - 1];
        let here = text_covers(line, x, y + (n - 1) * line_step(scale), scale, bottom_up, line.len());
        |c: int, r: int| prev(c, r) || here(c, r)
    }
}

/// Whether every coordinate used to draw `lines` fits in an `i32`.
pub open spec fn lines_fit(x: int, y: int, scale: int, lines: Seq<Seq<char>>) -> bool {
    &&& in_i32(line_step(scale))
    &&& forall|k: int|
        0 <= k < lines.len() ==> in_i32(y + k * line_step(scale)) && #[trigger] text_fits(
            x,
            y + k * line_step(scale),
            scale,
            lines[k].len() as int,
        )
}

/// The lines `text` is drawn as by [`draw_wrapped_text`].
pub open spec fn wrapped_text_lines(text: Seq<char>, max_chars: int) -> Seq<Seq<char>> {
    wrapped(split_spaces(text.map_values(|c: char| ascii_upper(c))), max_chars)
}

/// Draws `text` in upper case, wrapped at single spaces into lines of at
/// most `max_chars` bytes (a single longer piece stays on its own line),
/// one line every `12 * scale` pixels down from (`x`, `y`).
pub fn draw_wrapped_text(
    canvas: &mut Vec<u8>,
    width: u32,
    height: u32,
    x: i32,
    y: i32,
    scale: i32,
    text: &str,
    color: u32,
    max_chars: usize,
    bottom_up: bool,
)
    requires
        width * height * 4 <= old(canvas).len(),
        width * height * 4 <= u32::MAX,
        4 * (text@.len() + 1) <= usize::MAX,
        lines_fit(x as int, y as int, scale as int, wrapped_text_lines(text@, max_chars as int)),
    ensures
        final(canvas)@ == paint(
            old(canvas)@,
            width as int,
            clip(
                lines_cover(
                    wrapped_text_lines(text@, max_chars as int),
                    x as int,
                    y as int,
                    scale as int,
                    bottom_up,
                    wrapped_text_lines(text@, max_chars as int).len(),
                ),
                width as int,
                height as int,
            ),
            word_bytes(color),
        ),
{
    let upper = uppercase(text);
    let pieces = split_on_spaces(upper.as_slice());
    proof {
        lemma_split_spaces_size(upper@);
    }
    let lines = wrap_words(&pieces, max_chars);
    let ghost ls = wrapped_text_lines(text@, max_chars as int);
    let ghost orig = canvas@;
    let ghost w = width as int;
    let ghost h = height as int;
    assert(views(lines@) == ls);
    if width == 0 {
        assert(canvas@ =~= paint(orig, w, clip(lines_cover(ls, x as int, y as int, scale as int, bottom_up, ls.len()), w, h), word_bytes(color)));
        return;
    }
    let step: i32 = 12 * scale;
    let mut line_y: i32 = y;
    let mut k: usize = 0;
    assert(canvas@ =~= paint(orig, w, clip(lines_cover(ls, x as int, y as int, scale as int, bottom_up, 0), w, h), word_bytes(color)));
    while k < lines.len()
        invariant
            0 <= k <= lines@.len(),
            width > 0,
            w == width,
            h == height,
            ls == views(lines@),
            width * height * 4 <= orig.len(),
            width * height * 4 <= u32::MAX,
            lines_fit(x as int, y as int, scale as int, ls),
            step == line_step(scale as int),
            k < lines@.len() ==> line_y == y + k * line_step(scale as int),
            canvas@ == paint(orig, w, clip(lines_cover(ls, x as int, y as int, scale as int, bottom_up, k as nat), w, h), word_bytes(color)),
        decreases lines@.len() - k,
    {
        assert(ls[k as int] == lines@[k as int]@);
        assert(line_y == y + k * line_step(scale as int));
        assert(text_fits(x as int, y + k * line_step(scale as int), scale as int, ls[k as int].len() as int));
        let ghost prev = clip(lines_cover(ls, x as int, y as int, scale as int, bottom_up, k as nat), w, h);
        let ghost next = clip(lines_cover(ls, x as int, y as int, scale as int, bottom_up, (k + 1) as nat), w, h);
        draw_chars(canvas, width, height, x, line_y, scale, lines[k].as_slice(), color, bottom_up);
        proof {
            let here = clip(text_covers(lines@[k as int]@, x as int, line_y as int, scale as int, bottom_up, lines@[k as int]@.len()), w, h);
            lemma_paint_twice(orig, w, prev, here, word_bytes(color));
            assert forall|c: int, r: int| 0 <= c < w && 0 <= r implies (prev(c, r) || here(c, r)) == #[trigger] next(c, r) by {}
            lemma_paint_same(orig, w, |c: int, r: int| prev(c, r) || here(c, r), next, word_bytes(color));
        }
        k = k + 1;
        if k < lines.len() {
            assert(text_fits(x as int, y + k * line_step(scale as int), scale as int, ls[k as int].len() as int));
            assert(in_i32(y + k * line_step(scale as int)));
            assert(y + k * line_step(scale as int) == line_y + line_step(scale as int)) by (nonlinear_arith)
                requires
                    line_y == y + (k - 1) * line_step(scale as int),
            ;
            line_y = line_y + step;
        }
    }
}


/// The colors of the counter screen, as packed canvas words.
#[derive(Clone, Copy, Debug, PartialEq, Eq, Structural)]
pub struct CounterPalette {
    pub background: u32,
    pub surface_top: u32,
    pub surface_card: u32,
    pub accent: u32,
    pub accent_pressed: u32,
    pub text_primary: u32,
    pub text_muted: u32,
}

/// `canvas` with `text` painted centred across the whole width at row `y`.
pub open spec fn centered_line(
    canvas: Seq<u8>,
    width: int,
    height: int,
    y: int,
    scale: int,
    text: Seq<char>,
    color: u32,
) -> Seq<u8> {
    paint(
        canvas,
        width,
        clip(text_covers(text, centered_x(0, width, scale, text.len() as int), y, scale, false, text.len()), width, height),
        word_bytes(color),
    )
}

pub const COUNTER_HINT: &'static str = "CLICK OR SPACE / ENTER";
pub const COUNTER_FOOTER: &'static str = "SMITHAY CLIENT TOOLKIT";
pub const COUNTER_TAP_LABEL: &'static str = "TAP";
pub const COUNTER_RELEASE_LABEL: &'static str = "RELEASE";

/// The counter screen drawn over `canvas`: background, header bar, card,
/// tap button (lowered while pressed), the count, the hint, the button
/// label and the footer.
pub open spec fn counter_screen(
    canvas: Seq<u8>,
    width: int,
    height: int,
    count: u64,
    pressed: bool,
    p: CounterPalette,
) -> Seq<u8> {
    let c0 = filled(canvas, word_bytes(p.background));
    let c1 = paint(c0, width, clipped_rect(24, 24, width - 48, 84, width, height), word_bytes(p.surface_top));
    let c2 = paint(c1, width, clipped_rect(26, 134, width - 52, 470, width, height), word_bytes(p.surface_card));
    let c3 = paint(
        c2,
        width,
        clipped_rect(92, if pressed { 438 } else { 430 }, width - 184, 74, width, height),
        word_bytes(if pressed { p.accent_pressed } else { p.accent }),
    );
    let c4 = centered_line(c3, width, height, 238, 8, decimal_text(count as nat), p.text_primary);
    let c5 = centered_line(c4, width, height, 352, 2, COUNTER_HINT@, p.text_muted);
    let c6 = centered_line(
        c5,
        width,
        height,
        if pressed { 466 } else { 458 },
        3,
        if pressed { COUNTER_RELEASE_LABEL@ } else { COUNTER_TAP_LABEL@ },
        p.text_primary,
    );
    centered_line(c6, width, height, 650, 2, COUNTER_FOOTER@, p.text_muted)
}

fn draw_centered_line(
    canvas: &mut Vec<u8>,
    width: u32,
    height: u32,
    y: i32,
    scale: i32,
    text: &[char],
    color: u32,
)
    requires
        width * height * 4 <= old(canvas).len(),
        width * height * 4 <= u32::MAX,
        width <= 0x4000_0000,
        2 <= scale <= 8,
        0 <= y <= 0x1000,
        text@.len() <= 32,
    ensures
        final(canvas)@ == centered_line(old(canvas)@, width as int, height as int, y as int, scale as int, text@, color),
{
    let n = text.len();
    proof {
        let t = text_width(scale as int, n as int);
        assert(0 <= n * (8 * scale) <= 32 * 64) by (nonlinear_arith)
            requires
                n <= 32,
                2 <= scale <= 8,
        ;
        assert(0 <= clamp_lo0(n - 1) * scale <= 32 * 8) by (nonlinear_arith)
            requires
                n <= 32,
                2 <= scale <= 8,
        ;
        let cx = centered_x(0, width as int, scale as int, n as int);
        assert(0 <= cx <= width);
        assert(0 <= n * advance(scale as int) <= 32 * 72) by (nonlinear_arith)
            requires
                n <= 32,
                2 <= scale <= 8,
                advance(scale as int) == 9 * scale,
        ;
    }
    let x = centered_text_x(0, width as i32, scale, n);
    draw_chars(canvas, width, height, x, y, scale, text, color, false);
}

/// Draws the counter screen for `count`, with the button shown pressed
/// when `pressed`.
pub fn render_counter(
    canvas: &mut Vec<u8>,
    width: u32,
    height: u32,
    count: u64,
    pressed: bool,
    palette: &CounterPalette,
)
    requires
        width * height * 4 <= old(canvas).len(),
        width * height * 4 <= u32::MAX,
        width <= i32::MAX,
    ensures
        final(canvas)@ == counter_screen(old(canvas)@, width as int, height as int, count, pressed, *palette),
{
    let ghost orig = canvas@;
    let p = *palette;
    fill(canvas, p.background);
    if height == 0 {
        // Nothing but the fill lands on an empty canvas.
        proof {
            let w = width as int;
            let c0 = filled(orig, word_bytes(p.background));
            assert forall|f: spec_fn(int, int) -> bool, b: Seq<u8>| #![auto] paint(c0, w, clip(f, w, 0), b) == c0 by {
                assert(paint(c0, w, clip(f, w, 0), b) =~= c0);
            }
            assert forall|x: int, y: int, rw: int, rh: int, b: Seq<u8>| #![auto] paint(c0, w, clipped_rect(x, y, rw, rh, w, 0), b) == c0 by {
                assert(paint(c0, w, clipped_rect(x, y, rw, rh, w, 0), b) =~= c0);
            }
        }
        return;
    }
    assert(width * 4 <= width * height * 4) by (nonlinear_arith)
        requires
            height > 0,
    ;
    let wi = width as i32;
    fill_rect(canvas, width, height, 24, 24, wi - 48, 84, p.surface_top);
    fill_rect(canvas, width, height, 26, 134, wi - 52, 470, p.surface_card);
    let accent = if pressed { p.accent_pressed } else { p.accent };
    let button_y: i32 = if pressed { 438 } else { 430 };
    fill_rect(canvas, width, height, 92, button_y, wi - 184, 74, accent);
    let mut digits: Vec<char> = Vec::new();
    push_decimal_chars(&mut digits, count);
    proof {
        assert(digits@ =~= decimal_text(count as nat));
        reveal_with_fuel(pow10, 21);
        assert(pow10(20) == 100000000000000000000nat);
        lemma_decimal_text_len(count as nat, 20);
    }
    draw_centered_line(canvas, width, height, 238, 8, digits.as_slice(), p.text_primary);
    let hint = chars_of(COUNTER_HINT);
    proof {
        reveal_strlit("CLICK OR SPACE / ENTER");
    }
    draw_centered_line(canvas, width, height, 352, 2, hint.as_slice(), p.text_muted);
    let label = if pressed { chars_of(COUNTER_RELEASE_LABEL) } else { chars_of(COUNTER_TAP_LABEL) };
    let label_y: i32 = if pressed { 466 } else { 458 };
    proof {
        reveal_strlit("RELEASE");
        reveal_strlit("TAP");
    }
    draw_centered_line(canvas, width, height, label_y, 3, label.as_slice(), p.text_primary);
    let footer = chars_of(COUNTER_FOOTER);
    proof {
        reveal_strlit("SMITHAY CLIENT TOOLKIT");
    }
    draw_centered_line(canvas, width, height, 650, 2, footer.as_slice(), p.text_muted);
}

} // verus!
