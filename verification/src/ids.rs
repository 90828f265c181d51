//! Strongly-typed identifiers.
//!
//! Each entity gets its own newtype over `u64`.  Fresh ids are the high half
//! of a time-ordered (version 7) UUID, so they are never nil.

use vstd::prelude::*;

verus! {

/// High 64 bits of a freshly generated version-7 UUID.
///
/// Calls `uuid::Uuid::now_v7()` and `Uuid::as_u64_pair()`.  The value depends
/// on the clock and on random bits, so only the layout is stated: the UUID
/// version nibble (bits 12..16 of the high half) is always 7.
#[verifier::external_body]
fn uuid_v7_high() -> (r: u64)
    ensures
        (r / 4096) % 16 == 7,
{
    uuid::Uuid::now_v7().as_u64_pair().0
}

/// A fresh id value: never zero.
pub fn fresh_id_value() -> (r: u64)
    ensures
        r != 0,
        (r / 4096) % 16 == 7,
{
    uuid_v7_high()
}

/// Identifier of a project.
#[derive(Debug, Clone, Copy, PartialEq, Eq, Hash, Structural)]
pub struct ProjectId(pub u64);

impl ProjectId {
    /// A fresh, time-ordered identifier (never nil).
    pub fn next() -> (r: Self)
        ensures
            r.0 != 0,
    {
        ProjectId(fresh_id_value())
    }

    pub fn from_u64(v: u64) -> (r: Self)
        ensures
            r.0 == v,
    {
        ProjectId(v)
    }

    /// The nil identifier (zero).
    pub fn nil() -> (r: Self)
        ensures
            r.0 == 0,
    {
        ProjectId(0)
    }

    pub fn is_nil(&self) -> (b: bool)
        ensures
            b == (self.0 == 0),
    {
        self.0 == 0
    }
}

impl Default for ProjectId {
    fn default() -> (r: Self)
        ensures
            r.0 == 0,
    {
        ProjectId::nil()
    }
}

/// Identifier of a track.
#[derive(Debug, Clone, Copy, PartialEq, Eq, Hash, Structural)]
pub struct TrackId(pub u64);

impl TrackId {
    /// A fresh, time-ordered identifier (never nil).
    pub fn next() -> (r: Self)
        ensures
            r.0 != 0,
    {
        TrackId(fresh_id_value())
    }

    pub fn from_u64(v: u64) -> (r: Self)
        ensures
            r.0 == v,
    {
        TrackId(v)
    }

    /// The nil identifier (zero).
    pub fn nil() -> (r: Self)
        ensures
            r.0 == 0,
    {
        TrackId(0)
    }

    pub fn is_nil(&self) -> (b: bool)
        ensures
            b == (self.0 == 0),
    {
        self.0 == 0
    }
}

impl Default for TrackId {
    fn default() -> (r: Self)
        ensures
            r.0 == 0,
    {
        TrackId::nil()
    }
}

/// Identifier of a clip.
#[derive(Debug, Clone, Copy, PartialEq, Eq, Hash, Structural)]
pub struct ClipId(pub u64);

impl ClipId {
    /// A fresh, time-ordered identifier (never nil).
    pub fn next() -> (r: Self)
        ensures
            r.0 != 0,
    {
        ClipId(fresh_id_value())
    }

    pub fn from_u64(v: u64) -> (r: Self)
        ensures
            r.0 == v,
    {
        ClipId(v)
    }

    /// The nil identifier (zero).
    pub fn nil() -> (r: Self)
        ensures
            r.0 == 0,
    {
        ClipId(0)
    }

    pub fn is_nil(&self) -> (b: bool)
        ensures
            b == (self.0 == 0),
    {
        self.0 == 0
    }
}

impl Default for ClipId {
    fn default() -> (r: Self)
        ensures
            r.0 == 0,
    {
        ClipId::nil()
    }
}

/// Identifier of a media asset.
#[derive(Debug, Clone, Copy, PartialEq, Eq, Hash, Structural)]
pub struct AssetId(pub u64);

impl AssetId {
    /// A fresh, time-ordered identifier (never nil).
    pub fn next() -> (r: Self)
        ensures
            r.0 != 0,
    {
        AssetId(fresh_id_value())
    }

    pub fn from_u64(v: u64) -> (r: Self)
        ensures
            r.0 == v,
    {
        AssetId(v)
    }

    /// The nil identifier (zero).
    pub fn nil() -> (r: Self)
        ensures
            r.0 == 0,
    {
        AssetId(0)
    }

    pub fn is_nil(&self) -> (b: bool)
        ensures
            b == (self.0 == 0),
    {
        self.0 == 0
    }
}

impl Default for AssetId {
    fn default() -> (r: Self)
        ensures
            r.0 == 0,
    {
        AssetId::nil()
    }
}

/// Identifier of a timeline marker.
#[derive(Debug, Clone, Copy, PartialEq, Eq, Hash, Structural)]
pub struct MarkerId(pub u64);

impl MarkerId {
    /// A fresh, time-ordered identifier (never nil).
    pub fn next() -> (r: Self)
        ensures
            r.0 != 0,
    {
        MarkerId(fresh_id_value())
    }

    pub fn from_u64(v: u64) -> (r: Self)
        ensures
            r.0 == v,
    {
        MarkerId(v)
    }

    /// The nil identifier (zero).
    pub fn nil() -> (r: Self)
        ensures
            r.0 == 0,
    {
        MarkerId(0)
    }

    pub fn is_nil(&self) -> (b: bool)
        ensures
            b == (self.0 == 0),
    {
        self.0 == 0
    }
}

impl Default for MarkerId {
    fn default() -> (r: Self)
        ensures
            r.0 == 0,
    {
        MarkerId::nil()
    }
}

/// Identifier of an effect instance.
#[derive(Debug, Clone, Copy, PartialEq, Eq, Hash, Structural)]
pub struct EffectId(pub u64);

impl EffectId {
    /// A fresh, time-ordered identifier (never nil).
    pub fn next() -> (r: Self)
        ensures
            r.0 != 0,
    {
        EffectId(fresh_id_value())
    }

    pub fn from_u64(v: u64) -> (r: Self)
        ensures
            r.0 == v,
    {
        EffectId(v)
    }

    /// The nil identifier (zero).
    pub fn nil() -> (r: Self)
        ensures
            r.0 == 0,
    {
        EffectId(0)
    }

    pub fn is_nil(&self) -> (b: bool)
        ensures
            b == (self.0 == 0),
    {
        self.0 == 0
    }
}

impl Default for EffectId {
    fn default() -> (r: Self)
        ensures
            r.0 == 0,
    {
        EffectId::nil()
    }
}

/// Identifier of a keyframe.
#[derive(Debug, Clone, Copy, PartialEq, Eq, Hash, Structural)]
pub struct KeyframeId(pub u64);

impl KeyframeId {
    /// A fresh, time-ordered identifier (never nil).
    pub fn next() -> (r: Self)
        ensures
            r.0 != 0,
    {
        KeyframeId(fresh_id_value())
    }

    pub fn from_u64(v: u64) -> (r: Self)
        ensures
            r.0 == v,
    {
        KeyframeId(v)
    }

    /// The nil identifier (zero).
    pub fn nil() -> (r: Self)
        ensures
            r.0 == 0,
    {
        KeyframeId(0)
    }

    pub fn is_nil(&self) -> (b: bool)
        ensures
            b == (self.0 == 0),
    {
        self.0 == 0
    }
}

impl Default for KeyframeId {
    fn default() -> (r: Self)
        ensures
            r.0 == 0,
    {
        KeyframeId::nil()
    }
}

/// Identifier of a multicam angle.
#[derive(Debug, Clone, Copy, PartialEq, Eq, Hash, Structural)]
pub struct AngleId(pub u64);

impl AngleId {
    /// A fresh, time-ordered identifier (never nil).
    pub fn next() -> (r: Self)
        ensures
            r.0 != 0,
    {
        AngleId(fresh_id_value())
    }

    pub fn from_u64(v: u64) -> (r: Self)
        ensures
            r.0 == v,
    {
        AngleId(v)
    }

    /// The nil identifier (zero).
    pub fn nil() -> (r: Self)
        ensures
            r.0 == 0,
    {
        AngleId(0)
    }

    pub fn is_nil(&self) -> (b: bool)
        ensures
            b == (self.0 == 0),
    {
        self.0 == 0
    }
}

impl Default for AngleId {
    fn default() -> (r: Self)
        ensures
            r.0 == 0,
    {
        AngleId::nil()
    }
}

/// Identifier of a multicam group.
#[derive(Debug, Clone, Copy, PartialEq, Eq, Hash, Structural)]
pub struct MulticamId(pub u64);

impl MulticamId {
    /// A fresh, time-ordered identifier (never nil).
    pub fn next() -> (r: Self)
        ensures
            r.0 != 0,
    {
        MulticamId(fresh_id_value())
    }

    pub fn from_u64(v: u64) -> (r: Self)
        ensures
            r.0 == v,
    {
        MulticamId(v)
    }

    /// The nil identifier (zero).
    pub fn nil() -> (r: Self)
        ensures
            r.0 == 0,
    {
        MulticamId(0)
    }

    pub fn is_nil(&self) -> (b: bool)
        ensures
            b == (self.0 == 0),
    {
        self.0 == 0
    }
}

impl Default for MulticamId {
    fn default() -> (r: Self)
        ensures
            r.0 == 0,
    {
        MulticamId::nil()
    }
}

/// Identifier of a plugin manifest.
#[derive(Debug, Clone, Copy, PartialEq, Eq, Hash, Structural)]
pub struct PluginId(pub u64);

impl PluginId {
    /// A fresh, time-ordered identifier (never nil).
    pub fn next() -> (r: Self)
        ensures
            r.0 != 0,
    {
        PluginId(fresh_id_value())
    }

    pub fn from_u64(v: u64) -> (r: Self)
        ensures
            r.0 == v,
    {
        PluginId(v)
    }

    /// The nil identifier (zero).
    pub fn nil() -> (r: Self)
        ensures
            r.0 == 0,
    {
        PluginId(0)
    }

    pub fn is_nil(&self) -> (b: bool)
        ensures
            b == (self.0 == 0),
    {
        self.0 == 0
    }
}

impl Default for PluginId {
    fn default() -> (r: Self)
        ensures
            r.0 == 0,
    {
        PluginId::nil()
    }
}

} // verus!
