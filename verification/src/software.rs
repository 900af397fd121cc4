//! The software renderer's pixel store and the guest shell surface that
//! owns one.
//!
//! Pixels are stored as BGRA bytes, row after row. Rasterising rounded
//! rectangles and blended text needs floating point and is done by the
//! caller through [`SoftwareRenderer::pixel_at`] and
//! [`SoftwareRenderer::put_pixel`].
use crate::canvas::{fill, filled, pack_color, word_bytes};
use crate::color::Color;
use vstd::prelude::*;

verus! {

/// Abstract state of a [`SoftwareRenderer`].
pub struct RendererView {
    pub width: u32,
    pub height: u32,
    pub pixels: Seq<u8>,
}

/// `pixels` resized to `len` bytes: cut, or padded with zero bytes.
pub open spec fn resized(pixels: Seq<u8>, len: int) -> Seq<u8> {
    Seq::new(len as nat, |i: int| if i < pixels.len() { pixels[i] } else { 0u8 })
}

/// A BGRA pixel buffer of a fixed size.
pub struct SoftwareRenderer {
    width: u32,
    height: u32,
    pixels: Vec<u8>,
}

impl View for SoftwareRenderer {
    type V = RendererView;

    closed spec fn view(&self) -> RendererView {
        RendererView { width: self.width, height: self.height, pixels: self.pixels@ }
    }
}

/// Resizes `v` to `len` bytes, padding with zeros.
fn resize_bytes(v: &mut Vec<u8>, len: usize)
    ensures
        final(v)@ == resized(old(v)@, len as int),
{
    let ghost before = v@;
    v.resize(len, 0u8);
    assert(v@ =~= resized(before, len as int));
}

impl SoftwareRenderer {
    /// A black, fully transparent buffer of `width` x `height` pixels.
    pub fn new(width: u32, height: u32) -> (r: Self)
        requires
            width * height * 4 <= u32::MAX,
        ensures
            r@ == (RendererView { width, height, pixels: Seq::new((width * height * 4) as nat, |i: int| 0u8) }),
    {
        let len = (width * height * 4) as usize;
        let mut pixels: Vec<u8> = Vec::new();
        resize_bytes(&mut pixels, len);
        assert(pixels@ =~= Seq::new((width * height * 4) as nat, |i: int| 0u8));
        SoftwareRenderer { width, height, pixels }
    }

    pub fn width(&self) -> (r: u32)
        ensures
            r == self@.width,
    {
        self.width
    }

    pub fn height(&self) -> (r: u32)
        ensures
            r == self@.height,
    {
        self.height
    }

    /// Changes the size; the byte buffer keeps its prefix and grows with
    /// zero bytes. Nothing changes when the size is the same.
    pub fn resize(&mut self, width: u32, height: u32)
        requires
            width * height * 4 <= u32::MAX,
        ensures
            (old(self)@.width == width && old(self)@.height == height) ==> final(self)@ == old(self)@,
            !(old(self)@.width == width && old(self)@.height == height) ==> final(self)@ == (RendererView {
                width,
                height,
                pixels: resized(old(self)@.pixels, width * height * 4),
            }),
    {
        if self.width == width && self.height == height {
            return;
        }
        self.width = width;
        self.height = height;
        resize_bytes(&mut self.pixels, (width * height * 4) as usize);
    }

    /// The pixel bytes.
    pub fn pixels(&self) -> (r: &[u8])
        ensures
            r@ == self@.pixels,
    {
        self.pixels.as_slice()
    }

    /// Sets every whole pixel to `color`.
    pub fn clear(&mut self, color: Color)
        ensures
            final(self)@ == (RendererView {
                pixels: filled(old(self)@.pixels, seq![color@.2, color@.1, color@.0, color@.3]),
                ..old(self)@
            }),
    {
        let word = pack_color(color);
        fill(&mut self.pixels, word);
    }

    /// Byte offset of pixel (`x`, `y`), or `None` off the buffer.
    pub fn pixel_offset(&self, x: i32, y: i32) -> (r: Option<usize>)
        ensures
            r matches Some(o) ==> 0 <= x < self@.width && 0 <= y < self@.height && o == (y * self@.width
                + x) * 4 && o + 4 <= self@.pixels.len(),
            r is None ==> !(0 <= x < self@.width && 0 <= y < self@.height && (y * self@.width + x) * 4 + 4
                <= self@.pixels.len()),
    {
        if x < 0 || y < 0 || x as u32 >= self.width || y as u32 >= self.height {
            return None;
        }
        let xu = x as u64;
        let yu = y as u64;
        let w = self.width as u64;
        assert(yu * w + xu <= 0xffff_ffff * 0xffff_ffffu64 + 0xffff_ffff) by (nonlinear_arith)
            requires
                yu <= 0xffff_ffff,
                w <= 0xffff_ffff,
                xu <= 0xffff_ffff,
        ;
        let p: u128 = (yu as u128) * (w as u128) + (xu as u128);
        let o: u128 = p * 4;
        if o + 4 > self.pixels.len() as u128 {
            return None;
        }
        Some(o as usize)
    }

    /// The BGRA bytes of pixel (`x`, `y`), or `None` off the buffer.
    pub fn pixel_at(&self, x: i32, y: i32) -> (r: Option<[u8; 4]>)
        ensures
            r is Some <==> self.pixel_offset_spec(x, y) is Some,
            r matches Some(b) ==> b@ == self@.pixels.subrange(
                self.pixel_offset_spec(x, y)->0,
                self.pixel_offset_spec(x, y)->0 + 4,
            ),
    {
        match self.pixel_offset(x, y) {
            Some(o) => {
                let b = [self.pixels[o], self.pixels[o + 1], self.pixels[o + 2], self.pixels[o + 3]];
                assert(b@ =~= self@.pixels.subrange(o as int, o + 4));
                Some(b)
            },
            None => None,
        }
    }

    /// Byte offset of pixel (`x`, `y`) when it lies on the buffer.
    pub open spec fn pixel_offset_spec(&self, x: i32, y: i32) -> Option<int> {
        if 0 <= x < self@.width && 0 <= y < self@.height && (y * self@.width + x) * 4 + 4 <= self@.pixels.len() {
            Some((y * self@.width + x) * 4)
        } else {
            None
        }
    }

    /// Writes the BGRA bytes of pixel (`x`, `y`); nothing happens off the
    /// buffer.
    pub fn put_pixel(&mut self, x: i32, y: i32, bgra: [u8; 4])
        ensures
            final(self)@.width == old(self)@.width,
            final(self)@.height == old(self)@.height,
            old(self).pixel_offset_spec(x, y) matches Some(o) ==> final(self)@.pixels == old(self)@.pixels.update(
                o,
                bgra@[0],
            ).update(o + 1, bgra@[1]).update(o + 2, bgra@[2]).update(o + 3, bgra@[3]),
            old(self).pixel_offset_spec(x, y) is None ==> final(self)@.pixels == old(self)@.pixels,
    {
        match self.pixel_offset(x, y) {
            Some(o) => {
                self.pixels.set(o, bgra[0]);
                self.pixels.set(o + 1, bgra[1]);
                self.pixels.set(o + 2, bgra[2]);
                self.pixels.set(o + 3, bgra[3]);
            },
            None => {},
        }
    }
}

/// Abstract state of a [`GuestShellSurface`].
pub struct SurfaceView {
    pub width: u32,
    pub height: u32,
    pub renderer: RendererView,
    pub pixels: Seq<u8>,
}

/// The compositor's own shell surface: a scene renderer plus the composed
/// pixels that are shown.
pub struct GuestShellSurface {
    width: u32,
    height: u32,
    renderer: SoftwareRenderer,
    pixels: Vec<u8>,
}

impl View for GuestShellSurface {
    type V = SurfaceView;

    closed spec fn view(&self) -> SurfaceView {
        SurfaceView { width: self.width, height: self.height, renderer: self.renderer@, pixels: self.pixels@ }
    }
}

impl GuestShellSurface {
    /// A black, fully transparent surface of `width` x `height` pixels.
    pub fn new(width: u32, height: u32) -> (r: Self)
        requires
            width * height * 4 <= u32::MAX,
        ensures
            r@.width == width,
            r@.height == height,
            r@.renderer == (RendererView { width, height, pixels: Seq::new((width * height * 4) as nat, |i: int| 0u8) }),
            r@.pixels == Seq::new((width * height * 4) as nat, |i: int| 0u8),
    {
        let renderer = SoftwareRenderer::new(width, height);
        let mut pixels: Vec<u8> = Vec::new();
        resize_bytes(&mut pixels, (width * height * 4) as usize);
        assert(pixels@ =~= Seq::new((width * height * 4) as nat, |i: int| 0u8));
        GuestShellSurface { width, height, renderer, pixels }
    }

    pub fn width(&self) -> (r: u32)
        ensures
            r == self@.width,
    {
        self.width
    }

    pub fn height(&self) -> (r: u32)
        ensures
            r == self@.height,
    {
        self.height
    }

    /// Changes the size of the surface and of its renderer; nothing changes
    /// when the size is the same.
    pub fn resize(&mut self, width: u32, height: u32)
        requires
            width * height * 4 <= u32::MAX,
        ensures
            (old(self)@.width == width && old(self)@.height == height) ==> final(self)@ == old(self)@,
            !(old(self)@.width == width && old(self)@.height == height) ==> {
                &&& final(self)@.width == width
                &&& final(self)@.height == height
                &&& (old(self)@.renderer.width == width && old(self)@.renderer.height == height
                    ==> final(self)@.renderer == old(self)@.renderer)
                &&& (!(old(self)@.renderer.width == width && old(self)@.renderer.height == height)
                    ==> final(self)@.renderer == (RendererView {
                    width,
                    height,
                    pixels: resized(old(self)@.renderer.pixels, width * height * 4),
                }))
                &&& final(self)@.pixels == resized(old(self)@.pixels, width * height * 4)
            },
    {
        if self.width == width && self.height == height {
            return;
        }
        self.width = width;
        self.height = height;
        self.renderer.resize(width, height);
        resize_bytes(&mut self.pixels, (width as usize) * (height as usize) * 4);
    }

    /// The composed pixels.
    pub fn pixels(&self) -> (r: &[u8])
        ensures
            r@ == self@.pixels,
    {
        self.pixels.as_slice()
    }

    /// The scene renderer, sized to the surface first.
    pub fn scene_renderer(&mut self) -> (r: &mut SoftwareRenderer)
        requires
            old(self)@.width * old(self)@.height * 4 <= u32::MAX,
        ensures
            r@.width == old(self)@.width,
            r@.height == old(self)@.height,
            (old(self)@.renderer.width == old(self)@.width && old(self)@.renderer.height == old(self)@.height)
                ==> r@ == old(self)@.renderer,
            !(old(self)@.renderer.width == old(self)@.width && old(self)@.renderer.height == old(self)@.height)
                ==> r@.pixels == resized(old(self)@.renderer.pixels, old(self)@.width * old(self)@.height * 4),
            final(self)@ == (SurfaceView { renderer: final(r)@, ..old(self)@ }),
    {
        self.renderer.resize(self.width, self.height);
        &mut self.renderer
    }

    /// Makes the renderer's pixels the composed pixels.
    pub fn present_scene(&mut self)
        ensures
            final(self)@ == (SurfaceView { pixels: old(self)@.renderer.pixels, ..old(self)@ }),
    {
        let src = self.renderer.pixels();
        let mut out: Vec<u8> = Vec::new();
        let mut i: usize = 0;
        while i < src.len()
            invariant
                0 <= i <= src@.len(),
                out@ == src@.take(i as int),
            decreases src@.len() - i,
        {
            out.push(src[i]);
            assert(src@.take(i + 1) =~= src@.take(i as int).push(src@[i as int]));
            i = i + 1;
        }
        assert(src@.take(src@.len() as int) =~= src@);
        self.pixels = out;
    }

    /// Writes the BGRA bytes at byte `offset` of the composed pixels;
    /// nothing happens past the end.
    pub fn put_composed(&mut self, offset: usize, bgra: [u8; 4])
        ensures
            offset + 4 <= old(self)@.pixels.len() ==> final(self)@ == (SurfaceView {
                pixels: old(self)@.pixels.update(offset as int, bgra@[0]).update(offset + 1, bgra@[1]).update(
                    offset + 2,
                    bgra@[2],
                ).update(offset + 3, bgra@[3]),
                ..old(self)@
            }),
            !(offset + 4 <= old(self)@.pixels.len()) ==> final(self)@ == old(self)@,
    {
        if offset < self.pixels.len() && self.pixels.len() - offset >= 4 {
            self.pixels.set(offset, bgra[0]);
            self.pixels.set(offset + 1, bgra[1]);
            self.pixels.set(offset + 2, bgra[2]);
            self.pixels.set(offset + 3, bgra[3]);
        }
    }
}

} // verus!
