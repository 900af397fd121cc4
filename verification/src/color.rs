//! Straight (non-premultiplied) 8-bit RGBA colors.
use vstd::prelude::*;

verus! {

/// An sRGB color with an alpha channel, each channel one byte.
#[derive(Clone, Copy, Debug, PartialEq, Eq)]
pub struct Color {
    rgba: [u8; 4],
}

impl View for Color {
    type V = (u8, u8, u8, u8);

    closed spec fn view(&self) -> (u8, u8, u8, u8) {
        (self.rgba@[0], self.rgba@[1], self.rgba@[2], self.rgba@[3])
    }
}

impl Color {
    pub fn rgba(r: u8, g: u8, b: u8, a: u8) -> (c: Self)
        ensures
            c@ == (r, g, b, a),
    {
        Color { rgba: [r, g, b, a] }
    }

    /// The four channels in red, green, blue, alpha order.
    pub fn rgba8(self) -> (out: [u8; 4])
        ensures
            out@ == seq![self@.0, self@.1, self@.2, self@.3],
    {
        let out = self.rgba;
        assert(out@ =~= seq![self@.0, self@.1, self@.2, self@.3]);
        out
    }
}

} // verus!
