//! The guest test client: its settings and the test pattern it paints.
use crate::text::{parse_i32, parse_int_spec, parse_u64, str_equal};
use crate::frame::{checksum_bytes, fnv1a};
use vstd::prelude::*;

verus! {

pub const DEFAULT_WIDTH: i32 = 220;
pub const DEFAULT_HEIGHT: i32 = 120;
pub const BYTES_PER_PIXEL: i32 = 4;
pub const FULLSCREEN_BORDER_PX: i32 = 24;
pub const DEFAULT_LINGER_MS: u64 = 250;

/// The picture the guest client paints.
#[derive(Clone, Copy, Debug, PartialEq, Eq, Structural)]
pub enum CounterPattern {
    /// 20-pixel checks, red varying by column band and green by row band.
    Checker,
    /// A white border around four differently coloured quadrants.
    Quadrants,
}

/// Settings of the guest client.
#[derive(Clone, Copy, Debug, PartialEq, Eq, Structural)]
pub struct CounterConfig {
    pub width: i32,
    pub height: i32,
    pub fullscreen: bool,
    pub exit_on_configure: bool,
    pub linger_ms: u64,
    pub pattern: CounterPattern,
}

pub open spec fn positive_i32_spec(value: Option<Seq<char>>) -> Option<i32> {
    match value {
        Some(v) => match parse_int_spec(v, true, i32::MIN as int, i32::MAX as int) {
            Some(n) => if n > 0 { Some(n as i32) } else { None },
            None => None,
        },
        None => None,
    }
}

pub open spec fn pattern_spec(value: Option<Seq<char>>) -> Option<CounterPattern> {
    match value {
        Some(v) => if v == "checker"@ {
            Some(CounterPattern::Checker)
        } else if v == "quadrants"@ {
            Some(CounterPattern::Quadrants)
        } else {
            None
        },
        None => None,
    }
}

pub open spec fn opt_view(v: Option<&str>) -> Option<Seq<char>> {
    match v {
        Some(s) => Some(s@),
        None => None,
    }
}

/// A positive decimal `i32` setting; absent, malformed or non-positive values
/// are ignored.
pub fn parse_positive_i32(value: Option<&str>) -> (r: Option<i32>)
    ensures
        r == positive_i32_spec(opt_view(value)),
{
    match value {
        Some(v) => match parse_i32(v) {
            Some(n) => if n > 0 { Some(n) } else { None },
            None => None,
        },
        None => None,
    }
}

/// The pattern named by a setting (`checker` or `quadrants`).
pub fn parse_pattern(value: Option<&str>) -> (r: Option<CounterPattern>)
    ensures
        r == pattern_spec(opt_view(value)),
{
    match value {
        Some(v) => {
            if str_equal(v, "checker") {
                Some(CounterPattern::Checker)
            } else if str_equal(v, "quadrants") {
                Some(CounterPattern::Quadrants)
            } else {
                None
            }
        },
        None => None,
    }
}

impl CounterConfig {
    /// The configuration from the client's settings, each given as the raw
    /// setting text when set; missing or invalid values fall back to defaults.
    pub fn from_settings(
        width: Option<&str>,
        height: Option<&str>,
        fullscreen: bool,
        exit_on_configure: bool,
        linger_ms: Option<&str>,
        pattern: Option<&str>,
    ) -> (r: Self)
        ensures
            r.width == match positive_i32_spec(opt_view(width)) {
                Some(w) => w,
                None => DEFAULT_WIDTH,
            },
            r.height == match positive_i32_spec(opt_view(height)) {
                Some(h) => h,
                None => DEFAULT_HEIGHT,
            },
            r.fullscreen == fullscreen,
            r.exit_on_configure == exit_on_configure,
            r.linger_ms == match opt_view(linger_ms) {
                Some(v) => match parse_int_spec(v, false, 0, u64::MAX as int) {
                    Some(n) => n as u64,
                    None => DEFAULT_LINGER_MS,
                },
                None => DEFAULT_LINGER_MS,
            },
            r.pattern == match pattern_spec(opt_view(pattern)) {
                Some(p) => p,
                None => CounterPattern::Checker,
            },
    {
        let linger = match linger_ms {
            Some(v) => match parse_u64(v) {
                Some(n) => n,
                None => DEFAULT_LINGER_MS,
            },
            None => DEFAULT_LINGER_MS,
        };
        CounterConfig {
            width: match parse_positive_i32(width) {
                Some(w) => w,
                None => DEFAULT_WIDTH,
            },
            height: match parse_positive_i32(height) {
                Some(h) => h,
                None => DEFAULT_HEIGHT,
            },
            fullscreen,
            exit_on_configure,
            linger_ms: linger,
            pattern: match parse_pattern(pattern) {
                Some(p) => p,
                None => CounterPattern::Checker,
            },
        }
    }

    /// Bytes per row.
    pub fn stride(self) -> (r: i32)
        requires
            i32::MIN <= self.width * 4 <= i32::MAX,
        ensures
            r == self.width * 4,
    {
        self.width * BYTES_PER_PIXEL
    }

    /// Bytes of the whole buffer.
    pub fn buffer_size(self) -> (r: usize)
        requires
            i32::MIN <= self.width * 4 <= i32::MAX,
            self.width * 4 * self.height <= i32::MAX,
            self.width * 4 * self.height >= 0,
        ensures
            r == self.width * 4 * self.height,
    {
        let stride = self.stride();
        let size = stride * self.height;
        size as usize
    }
}

/// Saturating `v - 24` in `i32`.
pub open spec fn border_limit(v: i32) -> int {
    if v - 24 < i32::MIN { i32::MIN as int } else { v - 24 }
}

/// `|v|`.
pub open spec fn abs_int(v: int) -> int {
    if v < 0 { -v } else { v }
}

/// `a / b` rounded toward zero, as Rust's integer division does.
pub open spec fn tdiv(a: int, b: int) -> int {
    let q = abs_int(a) / abs_int(b);
    if (a < 0) != (b < 0) { -q } else { q }
}

/// The remainder of `a / b` rounded toward zero, with the sign of `a`, as
/// Rust's `%` gives it.
pub open spec fn trem(a: int, b: int) -> int {
    let r = abs_int(a) % abs_int(b);
    if a < 0 { -r } else { r }
}

/// `v / 2` rounded toward zero, as Rust's integer division does.
pub open spec fn half(v: int) -> int {
    tdiv(v, 2)
}

/// Whether coordinate `v` lies in an even 20-pixel band (band numbers
/// rounded toward zero, as Rust's integer division does).
pub open spec fn even_band(v: int) -> bool {
    trem(tdiv(v, 20), 2) == 0
}

/// Red, green and blue of the pattern at pixel (`x`, `y`) of a `w` x `h` image.
pub open spec fn pattern_rgb(pattern: CounterPattern, x: int, y: int, w: i32, h: i32) -> (u8, u8, u8) {
    match pattern {
        CounterPattern::Checker => (
            if even_band(x) { 0xE6u8 } else { 0x24u8 },
            if even_band(y) { 0x5Cu8 } else { 0xC7u8 },
            0xD8u8,
        ),
        CounterPattern::Quadrants => if x < FULLSCREEN_BORDER_PX || y < FULLSCREEN_BORDER_PX || x >= border_limit(w)
            || y >= border_limit(h) {
            (0xFFu8, 0xFFu8, 0xFFu8)
        } else if x < half(w as int) && y < half(h as int) {
            (0xFFu8, 0xD6u8, 0x00u8)
        } else if x >= half(w as int) && y < half(h as int) {
            (0x08u8, 0xE8u8, 0xFFu8)
        } else if x < half(w as int) {
            (0xFFu8, 0x2Du8, 0x55u8)
        } else {
            (0x32u8, 0xD7u8, 0x4Bu8)
        },
    }
}

/// Byte `i` of a painted buffer: pixels are blue, green, red, opaque alpha,
/// numbered row-major with `w` pixels per row (pixel `p` at column `p % w`
/// and row `p / w`, both rounded toward zero as Rust computes them, so a
/// negative width gives rows numbered downward from zero); bytes past the
/// last whole pixel keep their old value.
pub open spec fn painted_byte(old: Seq<u8>, i: int, w: i32, h: i32, pattern: CounterPattern) -> u8 {
    if i < old.len() - old.len() % 4 {
        let p = i / 4;
        let (r, g, b) = pattern_rgb(pattern, trem(p, w as int), tdiv(p, w as int), w, h);
        if i % 4 == 0 {
            b
        } else if i % 4 == 1 {
            g
        } else if i % 4 == 2 {
            r
        } else {
            0xFFu8
        }
    } else {
        old[i]
    }
}

/// `a / b` and `a % b` as Rust computes them on `i32`, for `b` not zero
/// and no overflow.
fn trunc_div_rem(a: i32, b: i32) -> (r: (i32, i32))
    requires
        b != 0,
        !(a == i32::MIN && b == -1),
    ensures
        r.0 == tdiv(a as int, b as int),
        r.1 == trem(a as int, b as int),
{
    let ua: u32 = if a < 0 { (-(a as i64)) as u32 } else { a as u32 };
    let ub: u32 = if b < 0 { (-(b as i64)) as u32 } else { b as u32 };
    let q0: u32 = ua / ub;
    let r0: u32 = ua % ub;
    proof {
        assert(ua as int == abs_int(a as int));
        assert(ub as int == abs_int(b as int));
        assert(q0 <= ua) by (nonlinear_arith)
            requires
                ub >= 1,
                q0 == ua / ub,
        ;
        assert(r0 < ub);
    }
    let q: i32 = if (a < 0) != (b < 0) {
        (-(q0 as i64)) as i32
    } else {
        proof {
            if q0 > i32::MAX as u32 {
                // only a == MIN with b == -1 could give 2^31, which is excluded
                assert(a < 0 && b < 0);
                assert(ua == 0x8000_0000u32);
                assert(ub == 1) by (nonlinear_arith)
                    requires
                        ua == 0x8000_0000u32,
                        q0 == ua / ub,
                        q0 > 0x7fff_ffffu32,
                        ub >= 1,
                ;
            }
        }
        q0 as i32
    };
    let r: i32 = if a < 0 { (-(r0 as i64)) as i32 } else { r0 as i32 };
    (q, r)
}

/// Whether `v` lies in an even 20-pixel band.
fn even_band_exec(v: i32) -> (r: bool)
    ensures
        r == even_band(v as int),
{
    let (q, _) = trunc_div_rem(v, 20);
    let (_, m) = trunc_div_rem(q, 2);
    m == 0
}

/// `v / 2` as Rust computes it.
fn half_exec(v: i32) -> (r: i32)
    ensures
        r == half(v as int),
{
    let (q, _) = trunc_div_rem(v, 2);
    q
}

fn pattern_rgb_exec(pattern: CounterPattern, x: i32, y: i32, w: i32, h: i32) -> (r: (u8, u8, u8))
    ensures
        r == pattern_rgb(pattern, x as int, y as int, w, h),
{
    match pattern {
        CounterPattern::Checker => {
            let red: u8 = if even_band_exec(x) { 0xE6 } else { 0x24 };
            let green: u8 = if even_band_exec(y) { 0x5C } else { 0xC7 };
            (red, green, 0xD8)
        },
        CounterPattern::Quadrants => {
            let wl = if w < i32::MIN + 24 { i32::MIN } else { w - 24 };
            let hl = if h < i32::MIN + 24 { i32::MIN } else { h - 24 };
            let half_w = half_exec(w);
            let half_h = half_exec(h);
            if x < FULLSCREEN_BORDER_PX || y < FULLSCREEN_BORDER_PX || x >= wl || y >= hl {
                (0xFF, 0xFF, 0xFF)
            } else if x < half_w && y < half_h {
                (0xFF, 0xD6, 0x00)
            } else if x >= half_w && y < half_h {
                (0x08, 0xE8, 0xFF)
            } else if x < half_w {
                (0xFF, 0x2D, 0x55)
            } else {
                (0x32, 0xD7, 0x4B)
            }
        },
    }
}

/// Paints the test pattern into a `width` x `height` BGRA buffer. A width
/// of zero is only possible for a buffer without a whole pixel.
pub fn paint_buffer(bytes: &mut Vec<u8>, width: i32, height: i32, pattern: CounterPattern)
    requires
        width != 0 || old(bytes)@.len() < 4,
        old(bytes)@.len() / 4 <= i32::MAX,
    ensures
        final(bytes)@.len() == old(bytes)@.len(),
        forall|i: int| 0 <= i < old(bytes)@.len() ==> #[trigger] final(bytes)@[i] == painted_byte(old(bytes)@, i, width, height, pattern),
{
    let n = bytes.len();
    let pixels = n / 4;
    let mut index: usize = 0;
    while index < pixels
        invariant
            n == bytes.len(),
            n == old(bytes)@.len(),
            pixels == n / 4,
            pixels <= i32::MAX,
            width != 0 || pixels == 0,
            0 <= index <= pixels,
            forall|i: int| 0 <= i < 4 * index ==> #[trigger] bytes@[i] == painted_byte(old(bytes)@, i, width, height, pattern),
            forall|i: int| 4 * index <= i < n ==> #[trigger] bytes@[i] == old(bytes)@[i],
        decreases pixels - index,
    {
        let (y, x) = trunc_div_rem(index as i32, width);
        let (red, green, blue) = pattern_rgb_exec(pattern, x, y, width, height);
        let base = index * 4;
        bytes.set(base, blue);
        bytes.set(base + 1, green);
        bytes.set(base + 2, red);
        bytes.set(base + 3, 0xFF);
        assert forall|i: int| 0 <= i < 4 * (index + 1) implies #[trigger] bytes@[i] == painted_byte(old(bytes)@, i, width, height, pattern) by {
            if i >= 4 * index {
                assert(i / 4 == index as int);
                assert(i < n - n % 4);
            }
        }
        index = index + 1;
    }
    assert forall|i: int| 0 <= i < n implies #[trigger] bytes@[i] == painted_byte(old(bytes)@, i, width, height, pattern) by {
        if i >= 4 * index {
            assert(i >= n - n % 4);
        }
    }
}

/// FNV-1a hash of a painted buffer, as the client logs it.
pub fn frame_checksum(bytes: &[u8]) -> (r: u64)
    ensures
        r == fnv1a(bytes@),
{
    checksum_bytes(bytes)
}

} // verus!
