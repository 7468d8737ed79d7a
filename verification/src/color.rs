//! Quantized color values.
//!
//! Vertex colors are stored pre-quantized as four `u8` channels. Conversion
//! from normalized floating-point channels happens outside the library, at
//! the boundary where geometry is produced.

use vstd::prelude::*;

verus! {

/// An RGBA color with one byte per channel.
#[derive(Debug, Clone, Copy, PartialEq, Eq, Structural)]
pub struct Rgba8 {
    pub r: u8,
    pub g: u8,
    pub b: u8,
    pub a: u8,
}

impl Rgba8 {
    /// Builds a color from its four channels.
    pub fn new(r: u8, g: u8, b: u8, a: u8) -> (c: Rgba8)
        ensures
            c == (Rgba8 { r, g, b, a }),
    {
        Rgba8 { r, g, b, a }
    }

    /// Fully transparent black, the default contents of fresh image buffers.
    pub fn zero() -> (c: Rgba8)
        ensures
            c == (Rgba8 { r: 0u8, g: 0u8, b: 0u8, a: 0u8 }),
    {
        Rgba8 { r: 0, g: 0, b: 0, a: 0 }
    }

    /// Opaque white, the color of the fallback texture used for untextured
    /// geometry.
    pub fn white() -> (c: Rgba8)
        ensures
            c == (Rgba8 { r: 255u8, g: 255u8, b: 255u8, a: 255u8 }),
    {
        Rgba8 { r: 255, g: 255, b: 255, a: 255 }
    }
}

} // verus!
