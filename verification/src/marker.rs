//! Timeline markers — named bookmarks at specific frames.

use vstd::prelude::*;
use crate::ids::MarkerId;

verus! {

/// A marker on the timeline.
#[derive(Debug, Clone)]
pub struct Marker {
    pub id: MarkerId,
    pub label: String,
    pub frame: i64,
    /// Optional colour hint (RGBA).
    pub color: Option<[u8; 4]>,
    /// Free-form notes.
    pub notes: String,
}

impl Marker {
    pub fn new(label: String, frame: i64) -> (m: Self)
        ensures
            m.id.0 != 0,
            m.label == label,
            m.frame == frame,
            m.color is None,
            m.notes@.len() == 0,
    {
        Marker { id: MarkerId::next(), label, frame, color: None, notes: String::new() }
    }
}

} // verus!
