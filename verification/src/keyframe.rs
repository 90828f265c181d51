//! Keyframes — animated parameter values over time.

use vstd::prelude::*;
use crate::ids::{EffectId, KeyframeId};
use crate::num::{F32Bits, F64Bits};

verus! {

/// Easing function for keyframe interpolation.
#[derive(Debug, Clone, Copy, PartialEq, Eq, Structural)]
pub enum Easing {
    Linear,
    Ease,
    EaseIn,
    EaseOut,
    EaseInOut,
    /// Step: no interpolation.
    Hold,
    Bezier { x1: F32Bits, y1: F32Bits, x2: F32Bits, y2: F32Bits },
}

impl Default for Easing {
    fn default() -> (r: Self)
        ensures
            r == Easing::Linear,
    {
        Easing::Linear
    }
}

/// Which property a keyframe controls.
#[derive(Debug, Clone)]
pub enum KeyframeProperty {
    PositionX,
    PositionY,
    ScaleX,
    ScaleY,
    Rotation,
    Opacity,
    Volume,
    /// Generic named parameter on a filter.
    FilterParam { filter_id: EffectId, param: String },
}

/// A single keyframe: a property value at a frame of the clip's local time.
#[derive(Debug, Clone)]
pub struct Keyframe {
    pub id: KeyframeId,
    /// Frame on the clip's local timeline (0 = clip start).
    pub at_frame: i64,
    pub property: KeyframeProperty,
    pub value: F64Bits,
    pub easing: Easing,
}

impl Keyframe {
    pub fn new(at_frame: i64, property: KeyframeProperty, value: F64Bits) -> (k: Self)
        ensures
            k.id.0 != 0,
            k.at_frame == at_frame,
            k.property == property,
            k.value == value,
            k.easing == Easing::Linear,
    {
        Keyframe { id: KeyframeId::next(), at_frame, property, value, easing: Easing::default() }
    }
}

} // verus!
