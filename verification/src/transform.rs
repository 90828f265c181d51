//! 2D clip transform: position, scale, rotation, anchor, crop, opacity.
//! Every component is an `f32` carried by its bit pattern.

use vstd::prelude::*;
use crate::num::F32Bits;

verus! {

/// Where the anchor sits inside the clip rect, normalised 0–1.
#[derive(Debug, Clone, Copy, PartialEq, Eq, Structural)]
pub struct AnchorPoint {
    pub x: F32Bits,
    pub y: F32Bits,
}

/// Position in canvas pixels.
#[derive(Debug, Clone, Copy, PartialEq, Eq, Structural)]
pub struct Position {
    pub x: F32Bits,
    pub y: F32Bits,
}

/// Scale multipliers (1.0 = 100 %).
#[derive(Debug, Clone, Copy, PartialEq, Eq, Structural)]
pub struct Scale {
    pub x: F32Bits,
    pub y: F32Bits,
}

/// Crop margins in pixels.
#[derive(Debug, Clone, Copy, PartialEq, Eq, Structural)]
pub struct Crop {
    pub top: F32Bits,
    pub right: F32Bits,
    pub bottom: F32Bits,
    pub left: F32Bits,
}

/// Clip transform.
#[derive(Debug, Clone, Copy, PartialEq, Eq, Structural)]
pub struct Transform {
    pub position: Position,
    pub scale: Scale,
    /// Rotation in degrees clockwise.
    pub rotation_deg: F32Bits,
    pub anchor: AnchorPoint,
    pub crop: Crop,
    /// Opacity 0.0–1.0.
    pub opacity: F32Bits,
    pub flip_h: bool,
    pub flip_v: bool,
}

impl Default for AnchorPoint {
    /// The centre of the clip (0.5, 0.5).
    fn default() -> (r: Self)
        ensures
            r.x.0 == 0x3F00_0000 && r.y.0 == 0x3F00_0000,
    {
        AnchorPoint { x: F32Bits::half(), y: F32Bits::half() }
    }
}

impl Default for Position {
    fn default() -> (r: Self)
        ensures
            r.x.0 == 0 && r.y.0 == 0,
    {
        Position { x: F32Bits::zero(), y: F32Bits::zero() }
    }
}

impl Default for Crop {
    fn default() -> (r: Self)
        ensures
            r.top.0 == 0 && r.right.0 == 0 && r.bottom.0 == 0 && r.left.0 == 0,
    {
        Crop { top: F32Bits::zero(), right: F32Bits::zero(), bottom: F32Bits::zero(), left: F32Bits::zero() }
    }
}

/// The scale used when none is given: 1.0 on both axes.
pub fn default_scale() -> (r: Scale)
    ensures
        r.x.0 == 0x3F80_0000 && r.y.0 == 0x3F80_0000,
{
    Scale { x: F32Bits::one(), y: F32Bits::one() }
}

/// The opacity used when none is given: 1.0.
pub fn default_opacity() -> (r: F32Bits)
    ensures
        r.0 == 0x3F80_0000,
{
    F32Bits::one()
}

impl Transform {
    /// The identity transform: no offset, unit scale, no rotation, centred
    /// anchor, no crop, fully opaque, no flips.
    pub open spec fn is_identity(self) -> bool {
        &&& self.position.x.0 == 0 && self.position.y.0 == 0
        &&& self.scale.x.0 == 0x3F80_0000 && self.scale.y.0 == 0x3F80_0000
        &&& self.rotation_deg.0 == 0
        &&& self.anchor.x.0 == 0x3F00_0000 && self.anchor.y.0 == 0x3F00_0000
        &&& self.crop.top.0 == 0 && self.crop.right.0 == 0 && self.crop.bottom.0 == 0
            && self.crop.left.0 == 0
        &&& self.opacity.0 == 0x3F80_0000
        &&& !self.flip_h && !self.flip_v
    }
}

impl Default for Transform {
    fn default() -> (r: Self)
        ensures
            r.is_identity(),
    {
        Transform {
            position: Position::default(),
            scale: default_scale(),
            rotation_deg: F32Bits::zero(),
            anchor: AnchorPoint::default(),
            crop: Crop::default(),
            opacity: default_opacity(),
            flip_h: false,
            flip_v: false,
        }
    }
}

} // verus!
