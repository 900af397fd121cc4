//! Pixel geometry of the shell and of the app viewport inside it.
use vstd::prelude::*;

verus! {

pub const SHELL_WIDTH_PX: u32 = 540;
pub const SHELL_HEIGHT_PX: u32 = 1170;
pub const APP_VIEWPORT_X_PX: u32 = 0;
pub const APP_VIEWPORT_Y_PX: u32 = 64;
pub const APP_VIEWPORT_WIDTH_PX: u32 = SHELL_WIDTH_PX;
pub const APP_VIEWPORT_HEIGHT_PX: u32 = SHELL_HEIGHT_PX - APP_VIEWPORT_Y_PX;

/// Horizontal alignment of a text block.
#[derive(Clone, Copy, Debug, PartialEq, Eq)]
pub enum TextAlign {
    Left,
    Center,
}

/// Font weight of a text block.
#[derive(Clone, Copy, Debug, PartialEq, Eq)]
pub enum TextWeight {
    Normal,
    Semibold,
    Bold,
}

/// The largest size with the app viewport's aspect ratio (rounded down) that fits
/// in `max_width` x `max_height`, or `None` when either side is zero or the fit
/// rounds a side down to zero.
pub open spec fn fitted_size_spec(max_width: int, max_height: int) -> Option<(int, int)> {
    let vw = APP_VIEWPORT_WIDTH_PX as int;
    let vh = APP_VIEWPORT_HEIGHT_PX as int;
    if max_width == 0 || max_height == 0 {
        None
    } else {
        let (w, h) = if max_width * vh <= max_height * vw {
            (max_width, (max_width * vh) / vw)
        } else {
            ((max_height * vw) / vh, max_height)
        };
        if w == 0 || h == 0 {
            None
        } else {
            Some((w, h))
        }
    }
}

/// Fits the app viewport into a panel of `max_width` x `max_height` pixels,
/// keeping its aspect ratio.
pub fn fitted_app_viewport_size(max_width: u32, max_height: u32) -> (r: Option<(u32, u32)>)
    ensures
        match fitted_size_spec(max_width as int, max_height as int) {
            Some((w, h)) => r == Some((w as u32, h as u32)),
            None => r is None,
        },
        r matches Some((w, h)) ==> w <= max_width && h <= max_height,
{
    if max_width == 0 || max_height == 0 {
        return None;
    }
    let viewport_width = APP_VIEWPORT_WIDTH_PX as u64;
    let viewport_height = APP_VIEWPORT_HEIGHT_PX as u64;
    let max_width = max_width as u64;
    let max_height = max_height as u64;
    assert(max_width * viewport_height <= 0xffff_ffff * 1106) by (nonlinear_arith)
        requires
            max_width <= 0xffff_ffff,
            viewport_height == 1106,
    ;
    assert(max_height * viewport_width <= 0xffff_ffff * 540) by (nonlinear_arith)
        requires
            max_height <= 0xffff_ffff,
            viewport_width == 540,
    ;
    let (fit_width, fit_height) = if max_width * viewport_height <= max_height * viewport_width {
        let fit_height = (max_width * viewport_height) / viewport_width;
        assert(fit_height <= max_height) by (nonlinear_arith)
            requires
                max_width * viewport_height <= max_height * viewport_width,
                fit_height == (max_width * viewport_height) as int / viewport_width as int,
                viewport_width == 540,
        ;
        (max_width, fit_height)
    } else {
        let fit_width = (max_height * viewport_width) / viewport_height;
        assert(fit_width <= max_width) by (nonlinear_arith)
            requires
                max_width * viewport_height > max_height * viewport_width,
                fit_width == (max_height * viewport_width) as int / viewport_height as int,
                viewport_height == 1106,
        ;
        (fit_width, max_height)
    };
    if fit_width == 0 || fit_height == 0 {
        return None;
    }
    Some((fit_width as u32, fit_height as u32))
}

} // verus!
