//! Quantized pixel values.
//!
//! Radiance stays floating-point with the caller; what the crate keeps is the
//! 8-bit pixel that comes out of quantization, and the saturation step that
//! guards it.

use vstd::prelude::*;

verus! {

/// An 8-bit RGBA pixel of the output raster.
#[derive(Clone, Copy, PartialEq, Eq, Structural, Debug)]
pub struct Rgba {
    pub r: u8,
    pub g: u8,
    pub b: u8,
    pub a: u8,
}

impl Rgba {
    pub fn new(r: u8, g: u8, b: u8, a: u8) -> (c: Rgba)
        ensures
            c == (Rgba { r, g, b, a }),
    {
        Rgba { r, g, b, a }
    }

    /// The all-zero pixel a fresh buffer is filled with.
    pub fn zero() -> (c: Rgba)
        ensures
            c == (Rgba { r: 0, g: 0, b: 0, a: 0 }),
    {
        Rgba { r: 0, g: 0, b: 0, a: 0 }
    }
}

/// The saturation step of quantization: bright emitters push a scaled channel
/// past the 8-bit maximum, which is capped, never wrapped.
pub fn saturate_channel(v: u64) -> (r: u8)
    ensures
        r as int == if v <= 255 {
            v as int
        } else {
            255
        },
{
    if v > 255 {
        255
    } else {
        v as u8
    }
}

} // verus!
