//! Canvas — output frame dimensions and composition space.

use vstd::prelude::*;
use crate::num::F32Bits;

verus! {

/// The composition canvas: output resolution, background, pixel aspect.
#[derive(Debug, Clone, Copy)]
pub struct Canvas {
    pub width: u32,
    pub height: u32,
    /// Background colour where no clip covers the frame (sRGBA, 0–255).
    pub background: [u8; 4],
    /// Pixel aspect ratio (1.0 = square pixels).
    pub pixel_aspect: F32Bits,
}

/// Opaque black.
pub fn default_background() -> (r: [u8; 4])
    ensures
        r@ == seq![0u8, 0u8, 0u8, 255u8],
{
    let r: [u8; 4] = [0, 0, 0, 255];
    assert(r@ =~= seq![0u8, 0u8, 0u8, 255u8]);
    r
}

/// Square pixels (1.0).
pub fn default_par() -> (r: F32Bits)
    ensures
        r.0 == 0x3F80_0000,
{
    F32Bits::one()
}

impl Canvas {
    /// A canvas of the given size with an opaque black background and square
    /// pixels.
    pub open spec fn is_plain(self, width: u32, height: u32) -> bool {
        &&& self.width == width && self.height == height
        &&& self.background@ == seq![0u8, 0u8, 0u8, 255u8]
        &&& self.pixel_aspect.0 == 0x3F80_0000
    }

    fn plain(width: u32, height: u32) -> (c: Self)
        ensures
            c.is_plain(width, height),
    {
        Canvas { width, height, background: default_background(), pixel_aspect: default_par() }
    }

    /// 1280×720.
    pub fn hd_720p() -> (c: Self)
        ensures
            c.is_plain(1280, 720),
    {
        Canvas::plain(1280, 720)
    }

    /// 1920×1080.
    pub fn hd_1080p() -> (c: Self)
        ensures
            c.is_plain(1920, 1080),
    {
        Canvas::plain(1920, 1080)
    }

    /// 3840×2160.
    pub fn uhd_4k() -> (c: Self)
        ensures
            c.is_plain(3840, 2160),
    {
        Canvas::plain(3840, 2160)
    }

    /// 1080×1920 (vertical 9:16).
    pub fn vertical_9x16() -> (c: Self)
        ensures
            c.is_plain(1080, 1920),
    {
        Canvas::plain(1080, 1920)
    }

    /// 1080×1080.
    pub fn square() -> (c: Self)
        ensures
            c.is_plain(1080, 1080),
    {
        Canvas::plain(1080, 1080)
    }
}

impl Default for Canvas {
    /// 1920×1080, opaque black, square pixels.
    fn default() -> (c: Self)
        ensures
            c.is_plain(1920, 1080),
    {
        Canvas::plain(1920, 1080)
    }
}

} // verus!
