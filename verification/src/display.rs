//! Choosing how to drive a directly attached display: which connector, mode,
//! encoder and CRTC to use, how the chosen mode is described, and filling a
//! scan-out buffer with one color.
//!
//! Connectors, encoders, CRTCs and modes are the kernel's own objects; the
//! choices here only pick among them, so they are taken as opaque values.
use vstd::prelude::*;

use crate::canvas::{fill, filled, word_bytes};
use crate::text::{append_decimal, decimal_text};

verus! {

/// What the choice of an output reads of one connector: whether a display
/// is connected, the modes it offers (preferred first), the encoder that
/// currently drives it and every encoder that can.
pub struct ConnectorSummary<E, M> {
    pub connected: bool,
    pub modes: Vec<M>,
    pub current_encoder: Option<E>,
    pub encoders: Vec<E>,
}

/// Whether a connector can be driven: a display is connected and it offers
/// at least one mode.
pub fn is_usable_connector<E, M>(connector: &ConnectorSummary<E, M>) -> (r: bool)
    ensures
        r == (connector.connected && connector.modes@.len() > 0),
{
    connector.connected && connector.modes.len() > 0
}

/// The mode to drive a connector with: the first it offers.
pub fn preferred_mode<E, M: Copy>(connector: &ConnectorSummary<E, M>) -> (r: Option<M>)
    ensures
        connector.modes@.len() == 0 ==> r is None,
        connector.modes@.len() > 0 ==> r == Some(connector.modes@[0]),
{
    if connector.modes.len() > 0 {
        Some(connector.modes[0])
    } else {
        None
    }
}

/// The encoder to drive a connector through: the one that drives it now,
/// else the first that can; `None` when it has none.
pub fn connector_encoder<E: Copy, M>(connector: &ConnectorSummary<E, M>) -> (r: Option<E>)
    ensures
        connector.current_encoder is Some ==> r == connector.current_encoder,
        connector.current_encoder is None && connector.encoders@.len() > 0 ==> r == Some(
            connector.encoders@[0],
        ),
        connector.current_encoder is None && connector.encoders@.len() == 0 ==> r is None,
{
    match connector.current_encoder {
        Some(encoder) => Some(encoder),
        None => if connector.encoders.len() > 0 {
            Some(connector.encoders[0])
        } else {
            None
        },
    }
}

/// The CRTC to scan out from: the one the encoder is attached to, else the
/// first of those it can drive; `None` when there is neither.
pub fn select_crtc_handle<C: Copy>(current: Option<C>, possible: &Vec<C>) -> (r: Option<C>)
    ensures
        current is Some ==> r == current,
        current is None && possible@.len() > 0 ==> r == Some(possible@[0]),
        current is None && possible@.len() == 0 ==> r is None,
{
    match current {
        Some(crtc) => Some(crtc),
        None => if possible.len() > 0 {
            Some(possible[0])
        } else {
            None
        },
    }
}

/// `width`x`height`@`refresh`, in decimal.
pub open spec fn mode_summary_text(width: u32, height: u32, refresh: u32) -> Seq<char> {
    decimal_text(width as nat) + seq!['x'] + decimal_text(height as nat) + seq!['@'] + decimal_text(
        refresh as nat,
    )
}

/// A mode's size and refresh rate as `WIDTHxHEIGHT@REFRESH`.
pub fn mode_summary(width: u32, height: u32, refresh: u32) -> (r: String)
    ensures
        r@ == mode_summary_text(width, height, refresh),
{
    let mut out = String::new();
    let ghost empty = out@;
    append_decimal(&mut out, width as u64);
    out.append("x");
    append_decimal(&mut out, height as u64);
    out.append("@");
    append_decimal(&mut out, refresh as u64);
    proof {
        reveal_strlit("x");
        reveal_strlit("@");
        assert(empty.len() == 0);
    }
    assert(out@ =~= mode_summary_text(width, height, refresh));
    out
}

/// The bytes of one 32-bit XRGB pixel of color `rgb`: blue, green, red, then
/// an opaque fourth byte.
pub open spec fn xrgb_pixel(rgb: (u8, u8, u8)) -> Seq<u8> {
    seq![rgb.2, rgb.1, rgb.0, 0xffu8]
}

/// Sets every whole pixel of a 32-bit XRGB scan-out buffer to `rgb`; bytes
/// after the last whole pixel are left alone.
pub fn fill_buffer_with_color(buffer: &mut Vec<u8>, rgb: (u8, u8, u8))
    ensures
        final(buffer)@ == filled(old(buffer)@, xrgb_pixel(rgb)),
{
    let (r, g, b) = rgb;
    let word: u32 = (0xffu32 << 24u32) | ((r as u32) << 16u32) | ((g as u32) << 8u32) | (b as u32);
    assert((word & 0xff) as u8 == b && ((word >> 8u32) & 0xff) as u8 == g && ((word >> 16u32)
        & 0xff) as u8 == r && ((word >> 24u32) & 0xff) as u8 == 0xffu8) by (bit_vector)
        requires
            word == (0xffu32 << 24u32) | ((r as u32) << 16u32) | ((g as u32) << 8u32) | (b as u32),
    ;
    assert(word_bytes(word) =~= xrgb_pixel(rgb));
    fill(buffer, word);
}

} // verus!
