//! The fixed palette by which a frame's bytes become colours.

use vstd::prelude::*;

verus! {

/// Red, green and blue of pixel value `v`: for `v` below 216 the levels
/// `(v / 36) % 6`, `(v / 6) % 6` and `v % 6` of the 6x6x6 colour cube, each
/// scaled by 51 onto 0..=255; black for every other value.
pub open spec fn color_of(v: u8) -> (u8, u8, u8) {
    if v < 216 {
        ((((v / 36) % 6) * 51) as u8, (((v / 6) % 6) * 51) as u8, ((v % 6) * 51) as u8)
    } else {
        (0u8, 0u8, 0u8)
    }
}

/// The colour in which a pixel of value `value` is shown.
pub fn pixel_color(value: u8) -> (rgb: (u8, u8, u8))
    ensures
        rgb == color_of(value),
        value < 216 ==> rgb.0 == ((value / 36) % 6) * 51 && rgb.1 == ((value / 6) % 6) * 51
            && rgb.2 == (value % 6) * 51,
{
    if value >= 216 {
        (0, 0, 0)
    } else {
        let r: u8 = ((value / 36) % 6) * 51;
        let g: u8 = ((value / 6) % 6) * 51;
        let b: u8 = (value % 6) * 51;
        (r, g, b)
    }
}

} // verus!
