//! Errors raised by the model when an edit cannot be applied.

use vstd::prelude::*;
use crate::ids::{AssetId, ClipId, TrackId};
use crate::time::Rational;
use crate::track::TrackKind;

verus! {

#[derive(Debug, Clone)]
pub enum ModelError {
    /// Unknown media id.
    UnknownMedia(AssetId),
    /// The media is still referenced by at least one clip.
    MediaReferenced(AssetId),
    UnknownTrack(TrackId),
    UnknownClip(ClipId),
    /// A source range exceeds the media bounds `0..bound`.
    SourceOutOfBounds { start: i64, end: i64, bound: i64 },
    /// Placement `[start, end)` overlaps the existing clip at
    /// `[existing_start, existing_end)` on `track`.
    Overlap { track: TrackId, start: i64, end: i64, existing_start: i64, existing_end: i64 },
    TrackLocked(TrackId),
    TrackKindMismatch { expected: TrackKind, got: TrackKind },
    InvalidFrameRate(Rational),
    Generic(String),
}

} // verus!
