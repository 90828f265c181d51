//! Tracks: ordered containers that hold clips on the timeline.

use vstd::prelude::*;
use crate::clip::Clip;
use crate::effect::EffectInstance;
use crate::error::ModelError;
use crate::ids::{ClipId, TrackId};
use crate::num::F32Bits;

verus! {

/// The kind of media a track carries.
#[derive(Debug, Clone, Copy, PartialEq, Eq, Hash, Structural)]
pub enum TrackKind {
    Video,
    Audio,
    /// Subtitle / caption track.
    Text,
    /// Adjustment / effect layer.
    Effect,
}

impl TrackKind {
    pub fn is_audio(&self) -> (b: bool)
        ensures
            b == (*self == TrackKind::Audio),
    {
        match self {
            TrackKind::Audio => true,
            _ => false,
        }
    }
}

/// Track height presets.
#[derive(Debug, Clone, Copy, PartialEq, Eq, Structural)]
pub enum TrackHeight {
    Mini,
    Small,
    Medium,
    Large,
}

impl TrackHeight {
    pub fn label(&self) -> (s: &'static str)
        ensures
            s@ == match *self {
                TrackHeight::Mini => "Mini"@,
                TrackHeight::Small => "Small"@,
                TrackHeight::Medium => "Medium"@,
                TrackHeight::Large => "Large"@,
            },
    {
        match self {
            TrackHeight::Mini => "Mini",
            TrackHeight::Small => "Small",
            TrackHeight::Medium => "Medium",
            TrackHeight::Large => "Large",
        }
    }
}

impl Default for TrackHeight {
    fn default() -> (r: Self)
        ensures
            r == TrackHeight::Medium,
    {
        TrackHeight::Medium
    }
}

/// A color label assigned to a track.
#[derive(Debug, Clone, Copy, PartialEq, Eq, Structural)]
pub enum TrackColor {
    Red,
    Orange,
    Yellow,
    Green,
    Blue,
    Purple,
    Pink,
    Gray,
}

impl TrackColor {
    /// The hex color string for this label.
    pub fn hex(&self) -> (s: &'static str)
        ensures
            s@ == match *self {
                TrackColor::Red => "#e74c3c"@,
                TrackColor::Orange => "#e67e22"@,
                TrackColor::Yellow => "#f1c40f"@,
                TrackColor::Green => "#2ecc71"@,
                TrackColor::Blue => "#3498db"@,
                TrackColor::Purple => "#9b59b6"@,
                TrackColor::Pink => "#e91e90"@,
                TrackColor::Gray => "#7f8c8d"@,
            },
    {
        match self {
            TrackColor::Red => "#e74c3c",
            TrackColor::Orange => "#e67e22",
            TrackColor::Yellow => "#f1c40f",
            TrackColor::Green => "#2ecc71",
            TrackColor::Blue => "#3498db",
            TrackColor::Purple => "#9b59b6",
            TrackColor::Pink => "#e91e90",
            TrackColor::Gray => "#7f8c8d",
        }
    }

    /// A human-readable label.
    pub fn label(&self) -> (s: &'static str)
        ensures
            s@ == match *self {
                TrackColor::Red => "Red"@,
                TrackColor::Orange => "Orange"@,
                TrackColor::Yellow => "Yellow"@,
                TrackColor::Green => "Green"@,
                TrackColor::Blue => "Blue"@,
                TrackColor::Purple => "Purple"@,
                TrackColor::Pink => "Pink"@,
                TrackColor::Gray => "Gray"@,
            },
    {
        match self {
            TrackColor::Red => "Red",
            TrackColor::Orange => "Orange",
            TrackColor::Yellow => "Yellow",
            TrackColor::Green => "Green",
            TrackColor::Blue => "Blue",
            TrackColor::Purple => "Purple",
            TrackColor::Pink => "Pink",
            TrackColor::Gray => "Gray",
        }
    }
}

/// A single track on the timeline.
#[derive(Debug, Clone)]
pub struct Track {
    pub id: TrackId,
    /// 0-based index among tracks of the same kind (V1 = 0, V2 = 1, ...).
    pub index: usize,
    pub name: String,
    pub kind: TrackKind,
    pub visible: bool,
    pub locked: bool,
    pub muted: bool,
    pub solo: bool,
    /// Excluded from export.
    pub disabled: bool,
    pub color: Option<TrackColor>,
    /// Primary storyline (only one track should be primary at a time).
    pub is_primary: bool,
    /// Gain in dB (audio tracks).
    pub gain_db: Option<F32Bits>,
    pub height: TrackHeight,
    /// Clips, ordered by timeline position.
    pub clips: Vec<Clip>,
    /// Per-track effects.
    pub effects: Vec<EffectInstance>,
}

/// Every clip of `clips` has a non-negative duration and an end frame that
/// fits in `i64`.
pub open spec fn clips_measurable(clips: Seq<Clip>) -> bool {
    forall|i: int| 0 <= i < clips.len() ==> #[trigger] clips[i].end_fits() && clips[i].dur() >= 0
}

/// Clips are ordered by their timeline start.
pub open spec fn sorted_by_start(clips: Seq<Clip>) -> bool {
    forall|i: int, j: int| 0 <= i < j < clips.len() ==> clips[i].timeline_in <= clips[j].timeline_in
}

/// No two clips share a timeline frame.
pub open spec fn pairwise_disjoint(clips: Seq<Clip>) -> bool {
    forall|i: int, j: int|
        0 <= i < j < clips.len() ==> !overlaps_span(clips[i], clips[j].timeline_in as int, clips[j].end())
}

/// The clip's timeline span `[timeline_in, end)` overlaps `[start, end)`.
pub open spec fn overlaps_span(c: Clip, start: int, end: int) -> bool {
    c.timeline_in < end && start < c.end()
}

/// Index of the first clip with id `id`, if any.
pub open spec fn clip_pos(clips: Seq<Clip>, id: ClipId) -> Option<int> {
    if exists|i: int| 0 <= i < clips.len() && clips[i].id == id {
        Some(
            choose|i: int|
                0 <= i < clips.len() && clips[i].id == id && forall|j: int|
                    0 <= j < i ==> clips[j].id != id,
        )
    } else {
        None
    }
}

/// Index of the first clip starting strictly after `t` (the length when none does).
pub open spec fn insert_pos(clips: Seq<Clip>, t: int) -> int {
    if exists|i: int| 0 <= i < clips.len() && clips[i].timeline_in > t {
        choose|i: int|
            0 <= i < clips.len() && clips[i].timeline_in > t && forall|j: int|
                0 <= j < i ==> clips[j].timeline_in <= t
    } else {
        clips.len() as int
    }
}

/// Index of the first clip whose span overlaps `[start, end)`, if any.
pub open spec fn first_overlap(clips: Seq<Clip>, start: int, end: int) -> Option<int> {
    if exists|i: int| 0 <= i < clips.len() && overlaps_span(clips[i], start, end) {
        Some(
            choose|i: int|
                0 <= i < clips.len() && overlaps_span(clips[i], start, end) && forall|j: int|
                    0 <= j < i ==> !overlaps_span(clips[j], start, end),
        )
    } else {
        None
    }
}

pub proof fn lemma_clip_pos_is(clips: Seq<Clip>, id: ClipId, i: int)
    requires
        0 <= i < clips.len(),
        clips[i].id == id,
        forall|j: int| 0 <= j < i ==> clips[j].id != id,
    ensures
        clip_pos(clips, id) == Some(i),
{
    let k = clip_pos(clips, id)->0;
    assert(0 <= k < clips.len() && clips[k].id == id && forall|j: int|
        0 <= j < k ==> clips[j].id != id);
    if k < i {
        assert(clips[k].id != id);
    }
    if i < k {
        assert(clips[i].id != id);
    }
}

proof fn lemma_insert_pos_is(clips: Seq<Clip>, t: int, i: int)
    requires
        0 <= i <= clips.len(),
        i < clips.len() ==> clips[i].timeline_in > t,
        forall|j: int| 0 <= j < i ==> clips[j].timeline_in <= t,
    ensures
        insert_pos(clips, t) == i,
{
    if i < clips.len() {
        let k = insert_pos(clips, t);
        assert(0 <= k < clips.len() && clips[k].timeline_in > t && forall|j: int|
            0 <= j < k ==> clips[j].timeline_in <= t);
        if k < i {
            assert(clips[k].timeline_in <= t);
        }
        if i < k {
            assert(clips[i].timeline_in <= t);
        }
    }
}

proof fn lemma_first_overlap_is(clips: Seq<Clip>, start: int, end: int, i: int)
    requires
        0 <= i < clips.len(),
        overlaps_span(clips[i], start, end),
        forall|j: int| 0 <= j < i ==> !overlaps_span(clips[j], start, end),
    ensures
        first_overlap(clips, start, end) == Some(i),
{
    let k = first_overlap(clips, start, end)->0;
    assert(0 <= k < clips.len() && overlaps_span(clips[k], start, end) && forall|j: int|
        0 <= j < k ==> !overlaps_span(clips[j], start, end));
    if k < i {
        assert(!overlaps_span(clips[k], start, end));
    }
    if i < k {
        assert(!overlaps_span(clips[i], start, end));
    }
}

/// The outcome of inserting `clip` into a track with clips `pre` of `kind`:
/// non-audio tracks refuse a clip that overlaps an existing one (reporting the
/// first such clip); otherwise the clip goes before the first clip that starts
/// after it.
pub open spec fn insert_clip_outcome(
    id: TrackId,
    kind: TrackKind,
    pre: Seq<Clip>,
    clip: Clip,
    post: Seq<Clip>,
    r: Result<(), ModelError>,
) -> bool {
    let fo = first_overlap(pre, clip.timeline_in as int, clip.end());
    if kind != TrackKind::Audio && fo is Some {
        let e = pre[fo->0];
        &&& post == pre
        &&& r == Err::<(), ModelError>(
            ModelError::Overlap {
                track: id,
                start: clip.timeline_in,
                end: clip.end() as i64,
                existing_start: e.timeline_in,
                existing_end: e.end() as i64,
            },
        )
    } else {
        &&& post == pre.insert(insert_pos(pre, clip.timeline_in as int), clip)
        &&& r is Ok
    }
}

/// Index of the first clip whose span overlaps `[start, end)`.
fn find_overlap(clips: &Vec<Clip>, start: i64, end: i64) -> (r: Option<usize>)
    requires
        clips_measurable(clips@),
    ensures
        r matches Some(i) ==> first_overlap(clips@, start as int, end as int) == Some(i as int)
            && i < clips@.len() && clips@[i as int].end_fits() && clips@[i as int].dur() >= 0,
        r is None ==> first_overlap(clips@, start as int, end as int) is None && forall|j: int|
            0 <= j < clips@.len() ==> !overlaps_span(clips@[j], start as int, end as int),
{
    let mut i: usize = 0;
    while i < clips.len()
        invariant
            0 <= i <= clips@.len(),
            clips_measurable(clips@),
            forall|j: int| 0 <= j < i ==> !overlaps_span(clips@[j], start as int, end as int),
        decreases clips@.len() - i,
    {
        let c = &clips[i];
        assert(clips@[i as int].end_fits() && clips@[i as int].dur() >= 0);
        let d = c.duration();
        if c.timeline_in < end && start < c.timeline_in + d {
            proof {
                lemma_first_overlap_is(clips@, start as int, end as int, i as int);
            }
            return Some(i);
        }
        i = i + 1;
    }
    None
}

/// Index of the first clip starting strictly after `t` (the length when none does).
fn insertion_point(clips: &Vec<Clip>, t: i64) -> (r: usize)
    ensures
        r == insert_pos(clips@, t as int),
        r <= clips@.len(),
        r < clips@.len() ==> clips@[r as int].timeline_in > t,
        forall|j: int| 0 <= j < r ==> clips@[j].timeline_in <= t,
{
    let mut pos: usize = 0;
    while pos < clips.len()
        invariant
            0 <= pos <= clips@.len(),
            forall|j: int| 0 <= j < pos ==> clips@[j].timeline_in <= t,
        decreases clips@.len() - pos,
    {
        if clips[pos].timeline_in > t {
            proof {
                lemma_insert_pos_is(clips@, t as int, pos as int);
            }
            return pos;
        }
        pos = pos + 1;
    }
    proof {
        lemma_insert_pos_is(clips@, t as int, pos as int);
    }
    pos
}

/// Inserting a measurable clip keeps every clip measurable.
proof fn lemma_insert_keeps_measurable(pre: Seq<Clip>, pos: int, c: Clip)
    requires
        0 <= pos <= pre.len(),
        clips_measurable(pre),
        c.end_fits() && c.dur() >= 0,
    ensures
        clips_measurable(pre.insert(pos, c)),
{
    let post = pre.insert(pos, c);
    assert forall|i: int| 0 <= i < post.len() implies #[trigger] post[i].end_fits()
        && post[i].dur() >= 0 by {
        if i < pos {
            assert(post[i] == pre[i]);
        } else if i > pos {
            assert(post[i] == pre[i - 1]);
        }
    }
}

/// Inserting a clip before the first clip that starts after it keeps the
/// clips ordered by start.
pub proof fn lemma_insert_keeps_sorted(pre: Seq<Clip>, pos: int, c: Clip)
    requires
        0 <= pos <= pre.len(),
        pos < pre.len() ==> pre[pos].timeline_in > c.timeline_in,
        forall|j: int| 0 <= j < pos ==> pre[j].timeline_in <= c.timeline_in,
        sorted_by_start(pre),
    ensures
        sorted_by_start(pre.insert(pos, c)),
{
    let post = pre.insert(pos, c);
    assert forall|i: int, j: int| 0 <= i < j < post.len() implies post[i].timeline_in
        <= post[j].timeline_in by {
        if j < pos {
            assert(post[i] == pre[i] && post[j] == pre[j]);
        } else if j == pos {
            assert(post[i] == pre[i]);
        } else if i == pos {
            assert(post[j] == pre[j - 1]);
            assert(pre[pos].timeline_in <= pre[j - 1].timeline_in);
        } else if i < pos {
            assert(post[i] == pre[i] && post[j] == pre[j - 1]);
        } else {
            assert(post[i] == pre[i - 1] && post[j] == pre[j - 1]);
        }
    }
}

/// Inserting a clip that overlaps none of the others keeps the clips
/// pairwise disjoint.
pub proof fn lemma_insert_keeps_disjoint(pre: Seq<Clip>, pos: int, c: Clip)
    requires
        0 <= pos <= pre.len(),
        forall|j: int| 0 <= j < pre.len() ==> !overlaps_span(pre[j], c.timeline_in as int, c.end()),
        pos < pre.len() ==> pre[pos].timeline_in > c.timeline_in,
        forall|j: int| 0 <= j < pos ==> pre[j].timeline_in <= c.timeline_in,
        pairwise_disjoint(pre),
    ensures
        pairwise_disjoint(pre.insert(pos, c)),
{
    let post = pre.insert(pos, c);
    assert forall|i: int, j: int| 0 <= i < j < post.len() implies !overlaps_span(
        post[i],
        post[j].timeline_in as int,
        post[j].end(),
    ) by {
        if j < pos {
            assert(post[i] == pre[i] && post[j] == pre[j]);
        } else if j == pos {
            assert(post[i] == pre[i]);
            assert(!overlaps_span(pre[i], c.timeline_in as int, c.end()));
        } else if i == pos {
            assert(post[j] == pre[j - 1]);
            assert(!overlaps_span(pre[j - 1], c.timeline_in as int, c.end()));
        } else if i < pos {
            assert(post[i] == pre[i] && post[j] == pre[j - 1]);
        } else {
            assert(post[i] == pre[i - 1] && post[j] == pre[j - 1]);
        }
    }
}

impl Track {
    pub fn new(kind: TrackKind, name: String, index: usize) -> (t: Self)
        ensures
            t.id.0 != 0,
            t.index == index,
            t.name == name,
            t.kind == kind,
            t.visible && !t.locked && !t.muted && !t.solo && !t.disabled,
            t.color is None,
            !t.is_primary,
            t.gain_db is None,
            t.height == TrackHeight::Medium,
            t.clips@.len() == 0,
            t.effects@.len() == 0,
    {
        Track {
            id: TrackId::next(),
            index,
            name,
            kind,
            visible: true,
            locked: false,
            muted: false,
            solo: false,
            disabled: false,
            color: None,
            is_primary: false,
            gain_db: None,
            height: TrackHeight::default(),
            clips: Vec::new(),
            effects: Vec::new(),
        }
    }

    /// The first clip with id `clip_id`, for in-place changes.
    pub fn clip_mut(&mut self, clip_id: ClipId) -> (r: Option<&mut Clip>)
        ensures
            match clip_pos(old(self).clips@, clip_id) {
                Some(i) => r matches Some(c) && *c == old(self).clips@[i] && *final(self) == (Track {
                    clips: final(self).clips,
                    ..*old(self)
                }) && final(self).clips@ == old(self).clips@.update(i, *final(c)),
                None => r is None && *final(self) == *old(self),
            },
    {
        match self.clip_index(clip_id) {
            Some(i) => Some(&mut self.clips[i]),
            None => None,
        }
    }

    /// Position of the clip with id `clip_id`.
    pub fn clip_index(&self, clip_id: ClipId) -> (r: Option<usize>)
        ensures
            r matches Some(i) ==> clip_pos(self.clips@, clip_id) == Some(i as int) && i
                < self.clips@.len() && self.clips@[i as int].id == clip_id,
            r is None ==> clip_pos(self.clips@, clip_id) is None,
    {
        let mut i: usize = 0;
        while i < self.clips.len()
            invariant
                0 <= i <= self.clips@.len(),
                forall|j: int| 0 <= j < i ==> self.clips@[j].id != clip_id,
            decreases self.clips@.len() - i,
        {
            if self.clips[i].id == clip_id {
                proof {
                    lemma_clip_pos_is(self.clips@, clip_id, i as int);
                }
                return Some(i);
            }
            i = i + 1;
        }
        None
    }

    pub fn clip(&self, clip_id: ClipId) -> (r: Option<&Clip>)
        ensures
            r matches Some(c) ==> clip_pos(self.clips@, clip_id) matches Some(i) && *c
                == self.clips@[i],
            r is None ==> clip_pos(self.clips@, clip_id) is None,
    {
        match self.clip_index(clip_id) {
            Some(i) => Some(&self.clips[i]),
            None => None,
        }
    }

    /// Insert a clip, keeping timeline order.  Audio tracks allow overlapping
    /// clips (for crossfades); all other track kinds reject overlaps.
    pub fn insert_clip(&mut self, clip: Clip) -> (r: Result<(), ModelError>)
        requires
            clip.end_fits(),
            clip.dur() >= 0,
            old(self).kind != TrackKind::Audio ==> clips_measurable(old(self).clips@),
        ensures
            *final(self) == (Track { clips: final(self).clips, ..*old(self) }),
            insert_clip_outcome(
                old(self).id,
                old(self).kind,
                old(self).clips@,
                clip,
                final(self).clips@,
                r,
            ),
            final(self).id == old(self).id,
            final(self).kind == old(self).kind,
            final(self).name == old(self).name,
            final(self).index == old(self).index,
            final(self).locked == old(self).locked,
            final(self).effects == old(self).effects,
            sorted_by_start(old(self).clips@) ==> sorted_by_start(final(self).clips@),
            clips_measurable(old(self).clips@) ==> clips_measurable(final(self).clips@),
            old(self).kind != TrackKind::Audio && pairwise_disjoint(old(self).clips@)
                ==> pairwise_disjoint(final(self).clips@),
    {
        let ghost pre = self.clips@;
        let range = clip.timeline_range();
        if self.kind != TrackKind::Audio {
            match find_overlap(&self.clips, range.start, range.end) {
                Some(i) => {
                    let existing = &self.clips[i];
                    let d = existing.duration();
                    return Err(
                        ModelError::Overlap {
                            track: self.id,
                            start: range.start,
                            end: range.end,
                            existing_start: existing.timeline_in,
                            existing_end: existing.timeline_in + d,
                        },
                    );
                },
                None => {},
            }
        }
        let pos = insertion_point(&self.clips, clip.timeline_in);
        let ghost c = clip;
        self.clips.insert(pos, clip);
        proof {
            if clips_measurable(pre) {
                lemma_insert_keeps_measurable(pre, pos as int, c);
            }
            if sorted_by_start(pre) {
                lemma_insert_keeps_sorted(pre, pos as int, c);
            }
            if self.kind != TrackKind::Audio && pairwise_disjoint(pre) {
                lemma_insert_keeps_disjoint(pre, pos as int, c);
            }
        }
        Ok(())
    }

    /// Remove the clip with id `clip_id`, returning it.
    pub fn remove_clip(&mut self, clip_id: ClipId) -> (r: Option<Clip>)
        ensures
            *final(self) == (Track { clips: final(self).clips, ..*old(self) }),
            final(self).id == old(self).id,
            final(self).kind == old(self).kind,
            final(self).name == old(self).name,
            final(self).index == old(self).index,
            final(self).locked == old(self).locked,
            final(self).effects == old(self).effects,
            match clip_pos(old(self).clips@, clip_id) {
                Some(i) => r == Some(old(self).clips@[i]) && final(self).clips@ == old(
                    self,
                ).clips@.remove(i),
                None => r is None && *final(self) == *old(self),
            },
    {
        match self.clip_index(clip_id) {
            Some(i) => Some(self.clips.remove(i)),
            None => None,
        }
    }

    /// Total duration of this track in frames: the end of the last clip.
    pub fn duration(&self) -> (d: i64)
        requires
            self.clips@.len() > 0 ==> self.clips@.last().end_fits(),
        ensures
            d == (if self.clips@.len() == 0 { 0 } else { self.clips@.last().end() }),
    {
        if self.clips.len() == 0 {
            0
        } else {
            let c = &self.clips[self.clips.len() - 1];
            c.timeline_in + c.duration()
        }
    }
}

} // verus!
