//! Multicam — a single timeline clip that holds several synchronised camera
//! angles, one of which is active at a time.

use vstd::prelude::*;
use crate::ids::{AngleId, AssetId, ClipId};
use crate::num::F32Bits;

verus! {

/// How to synchronise the angles of a multicam clip.
#[derive(Debug, Clone, Copy, PartialEq, Eq, Structural)]
pub enum MulticamSyncMethod {
    /// Audio waveform cross-correlation.
    Waveform,
    /// Embedded SMPTE timecode.
    Timecode,
    /// User-supplied offsets.
    Manual,
}

/// How audio behaves when switching angles.
#[derive(Debug, Clone, Copy, PartialEq, Eq, Structural)]
pub enum MulticamAudioPolicy {
    /// Audio follows the selected angle.
    FollowVideo,
    /// Audio stays on the master (first) angle.
    MasterOnly,
    /// A dedicated audio clip is used (`separate_audio_clip_id`).
    Separate,
}

impl Default for MulticamAudioPolicy {
    fn default() -> (r: Self)
        ensures
            r == MulticamAudioPolicy::FollowVideo,
    {
        MulticamAudioPolicy::FollowVideo
    }
}

/// A single camera angle inside a multicam clip.
#[derive(Debug, Clone)]
pub struct MulticamAngle {
    pub id: AngleId,
    /// Label shown in the angle viewer (e.g. "Cam A").
    pub label: String,
    pub asset_id: AssetId,
    /// Offset in frames from the multicam clip's timeline start.
    pub offset_frames: i64,
    /// Source in-point within the asset.
    pub source_in: i64,
    /// Whether the angle is shown in the angle viewer.
    pub enabled: bool,
    /// Audio gain offset in dB relative to the clip's gain.
    pub gain_trim_db: Option<F32Bits>,
}

impl MulticamAngle {
    pub fn new(asset_id: AssetId, label: String) -> (a: Self)
        ensures
            a.id.0 != 0,
            a.label == label,
            a.asset_id == asset_id,
            a.offset_frames == 0,
            a.source_in == 0,
            a.enabled,
            a.gain_trim_db is None,
    {
        MulticamAngle {
            id: AngleId::next(),
            label,
            asset_id,
            offset_frames: 0,
            source_in: 0,
            enabled: true,
            gain_trim_db: None,
        }
    }
}

/// A multicam clip: one timeline clip holding several synchronised angles.
#[derive(Debug, Clone)]
pub struct MulticamClip {
    /// The clip id of the wrapper clip on the timeline.
    pub clip_id: ClipId,
    pub label: String,
    pub angles: Vec<MulticamAngle>,
    /// Index into `angles` of the active angle.
    pub active_angle_index: usize,
    pub sync_method: MulticamSyncMethod,
    pub audio_policy: MulticamAudioPolicy,
    /// Dedicated audio clip (for `MulticamAudioPolicy::Separate`).
    pub separate_audio_clip_id: Option<ClipId>,
    /// Frame on the timeline where the clip starts.
    pub timeline_in: i64,
    /// Duration in frames.
    pub duration_frames: i64,
}

/// Length given to a new multicam clip beyond its largest angle offset.
pub const FALLBACK_MULTICAM_FRAMES: i64 = 300;

/// The largest angle offset (0 when there are no angles).
pub open spec fn max_offset(angles: Seq<MulticamAngle>) -> int
    decreases angles.len(),
{
    if angles.len() == 0 {
        0
    } else if angles.len() == 1 {
        angles[0].offset_frames as int
    } else {
        let m = max_offset(angles.drop_last());
        let o = angles.last().offset_frames as int;
        if m >= o { m } else { o }
    }
}

proof fn lemma_max_offset_bounds(angles: Seq<MulticamAngle>)
    ensures
        angles.len() > 0 ==> i64::MIN <= max_offset(angles) <= i64::MAX,
    decreases angles.len(),
{
    if angles.len() > 1 {
        lemma_max_offset_bounds(angles.drop_last());
    }
}

/// The active index after moving one angle forward, wrapping around.
pub open spec fn next_index(active: int, len: int) -> int {
    (active + 1) % (if len >= 1 { len } else { 1 })
}

/// The active index after moving one angle back, wrapping around.
pub open spec fn prev_index(active: int, len: int) -> int {
    if active == 0 {
        if len >= 1 { len - 1 } else { 0 }
    } else {
        active - 1
    }
}

impl MulticamClip {
    /// The active index names an angle, or is 0 when there are none.
    pub open spec fn active_valid(self) -> bool {
        self.active_angle_index < self.angles@.len() || (self.angles@.len() == 0
            && self.active_angle_index == 0)
    }

    /// Create a multicam clip from a list of angles; the duration is the
    /// largest angle offset plus 300 frames.
    pub fn new(
        clip_id: ClipId,
        label: String,
        angles: Vec<MulticamAngle>,
        sync_method: MulticamSyncMethod,
        timeline_in: i64,
    ) -> (m: Self)
        requires
            max_offset(angles@) + FALLBACK_MULTICAM_FRAMES <= i64::MAX,
        ensures
            m.clip_id == clip_id,
            m.label == label,
            m.angles == angles,
            m.active_angle_index == 0,
            m.sync_method == sync_method,
            m.audio_policy == MulticamAudioPolicy::FollowVideo,
            m.separate_audio_clip_id is None,
            m.timeline_in == timeline_in,
            m.duration_frames == max_offset(angles@) + FALLBACK_MULTICAM_FRAMES,
            m.active_valid(),
    {
        let mut best: i64 = 0;
        let mut i: usize = 0;
        proof {
            lemma_max_offset_bounds(angles@);
        }
        while i < angles.len()
            invariant
                0 <= i <= angles@.len(),
                i == 0 ==> best == 0,
                i > 0 ==> best == max_offset(angles@.take(i as int)),
            decreases angles@.len() - i,
        {
            assert(angles@.take(i + 1).drop_last() =~= angles@.take(i as int));
            assert(angles@.take(i + 1).last() == angles@[i as int]);
            let o = angles[i].offset_frames;
            if i == 0 || o > best {
                best = o;
            }
            i = i + 1;
        }
        if angles.len() > 0 {
            assert(angles@.take(i as int) =~= angles@);
        }
        MulticamClip {
            clip_id,
            label,
            angles,
            active_angle_index: 0,
            sync_method,
            audio_policy: MulticamAudioPolicy::default(),
            separate_audio_clip_id: None,
            timeline_in,
            duration_frames: best + FALLBACK_MULTICAM_FRAMES,
        }
    }

    /// The currently active angle.
    pub fn active_angle(&self) -> (r: Option<&MulticamAngle>)
        ensures
            r matches Some(a) ==> self.active_angle_index < self.angles@.len() && *a
                == self.angles@[self.active_angle_index as int],
            r is None <==> self.active_angle_index >= self.angles@.len(),
    {
        if self.active_angle_index < self.angles.len() {
            Some(&self.angles[self.active_angle_index])
        } else {
            None
        }
    }

    /// Make angle `index` active; out-of-range indices change nothing.
    pub fn switch_to(&mut self, index: usize) -> (r: Option<&MulticamAngle>)
        ensures
            *final(self) == (MulticamClip { active_angle_index: final(self).active_angle_index, ..*old(self) }),
            final(self).angles == old(self).angles,
            final(self).clip_id == old(self).clip_id,
            final(self).audio_policy == old(self).audio_policy,
            final(self).separate_audio_clip_id == old(self).separate_audio_clip_id,
            final(self).timeline_in == old(self).timeline_in,
            final(self).duration_frames == old(self).duration_frames,
            index < old(self).angles@.len() ==> (final(self).active_angle_index == index && (r
                matches Some(a) && *a == old(self).angles@[index as int])),
            index >= old(self).angles@.len() ==> final(self).active_angle_index == old(
                self,
            ).active_angle_index && r is None,
    {
        if index < self.angles.len() {
            self.active_angle_index = index;
            Some(&self.angles[index])
        } else {
            None
        }
    }

    /// Switch to the next angle, wrapping around.
    pub fn next_angle(&mut self) -> (r: Option<&MulticamAngle>)
        requires
            old(self).active_angle_index < usize::MAX,
        ensures
            final(self).angles == old(self).angles,
            final(self).clip_id == old(self).clip_id,
            final(self).audio_policy == old(self).audio_policy,
            final(self).separate_audio_clip_id == old(self).separate_audio_clip_id,
            final(self).timeline_in == old(self).timeline_in,
            final(self).duration_frames == old(self).duration_frames,
            old(self).angles@.len() > 0 ==> final(self).active_angle_index == next_index(
                old(self).active_angle_index as int,
                old(self).angles@.len() as int,
            ) && (r matches Some(a) && *a == old(self).angles@[final(self).active_angle_index as int]),
            old(self).angles@.len() == 0 ==> final(self).active_angle_index == old(
                self,
            ).active_angle_index && r is None,
    {
        let len = self.angles.len();
        let m = if len >= 1 { len } else { 1 };
        let next = (self.active_angle_index + 1) % m;
        self.switch_to(next)
    }

    /// Switch to the previous angle, wrapping around.
    pub fn prev_angle(&mut self) -> (r: Option<&MulticamAngle>)
        ensures
            final(self).angles == old(self).angles,
            final(self).clip_id == old(self).clip_id,
            final(self).audio_policy == old(self).audio_policy,
            final(self).separate_audio_clip_id == old(self).separate_audio_clip_id,
            final(self).timeline_in == old(self).timeline_in,
            final(self).duration_frames == old(self).duration_frames,
            ({
                let p = prev_index(old(self).active_angle_index as int, old(self).angles@.len() as int);
                if p < old(self).angles@.len() {
                    final(self).active_angle_index == p && (r matches Some(a) && *a == old(
                        self,
                    ).angles@[p])
                } else {
                    final(self).active_angle_index == old(self).active_angle_index && r is None
                }
            }),
    {
        let prev = if self.active_angle_index == 0 {
            if self.angles.len() >= 1 {
                self.angles.len() - 1
            } else {
                0
            }
        } else {
            self.active_angle_index - 1
        };
        self.switch_to(prev)
    }

    /// Add a new angle.
    pub fn add_angle(&mut self, angle: MulticamAngle)
        ensures
            *final(self) == (MulticamClip { angles: final(self).angles, ..*old(self) }),
            final(self).angles@ == old(self).angles@.push(angle),
            final(self).active_angle_index == old(self).active_angle_index,
            final(self).clip_id == old(self).clip_id,
            final(self).audio_policy == old(self).audio_policy,
            final(self).separate_audio_clip_id == old(self).separate_audio_clip_id,
            final(self).timeline_in == old(self).timeline_in,
            final(self).duration_frames == old(self).duration_frames,
            old(self).active_valid() ==> final(self).active_valid(),
    {
        self.angles.push(angle);
    }

    /// Remove the angle with id `angle_id`; the active index is clamped to
    /// the last remaining angle when it falls off the end.
    pub fn remove_angle(&mut self, angle_id: AngleId) -> (r: Option<MulticamAngle>)
        ensures
            *final(self) == (MulticamClip {
                angles: final(self).angles,
                active_angle_index: final(self).active_angle_index,
                ..*old(self)
            }),
            final(self).clip_id == old(self).clip_id,
            final(self).audio_policy == old(self).audio_policy,
            final(self).separate_audio_clip_id == old(self).separate_audio_clip_id,
            final(self).timeline_in == old(self).timeline_in,
            final(self).duration_frames == old(self).duration_frames,
            match first_angle_pos(old(self).angles@, angle_id) {
                Some(i) => {
                    let post = old(self).angles@.remove(i);
                    &&& r == Some(old(self).angles@[i])
                    &&& final(self).angles@ == post
                    &&& final(self).active_angle_index == (if old(self).active_angle_index
                        >= post.len() {
                        if post.len() >= 1 { (post.len() - 1) as usize } else { 0usize }
                    } else {
                        old(self).active_angle_index
                    })
                },
                None => r is None && *final(self) == *old(self),
            },
            r is Some || old(self).active_valid() ==> final(self).active_valid(),
    {
        let mut i: usize = 0;
        while i < self.angles.len()
            invariant
                0 <= i <= self.angles@.len(),
                *self == *old(self),
                forall|j: int| 0 <= j < i ==> self.angles@[j].id != angle_id,
            decreases self.angles@.len() - i,
        {
            if self.angles[i].id == angle_id {
                proof {
                    lemma_first_angle_pos_is(self.angles@, angle_id, i as int);
                }
                let removed = self.angles.remove(i);
                if self.active_angle_index >= self.angles.len() {
                    self.active_angle_index = if self.angles.len() >= 1 {
                        self.angles.len() - 1
                    } else {
                        0
                    };
                }
                return Some(removed);
            }
            i = i + 1;
        }
        assert(first_angle_pos(self.angles@, angle_id) is None);
        None
    }

    /// Whether there are enough angles (two) for the clip to be functional.
    pub fn is_valid(&self) -> (b: bool)
        ensures
            b == (self.angles@.len() >= 2),
    {
        self.angles.len() >= 2
    }

    pub fn angle_count(&self) -> (n: usize)
        ensures
            n == self.angles@.len(),
    {
        self.angles.len()
    }

    /// The angle kept when collapsing to a single clip: the active one.
    pub fn collapse(&self) -> (r: Option<&MulticamAngle>)
        ensures
            r matches Some(a) ==> self.active_angle_index < self.angles@.len() && *a
                == self.angles@[self.active_angle_index as int],
            r is None <==> self.active_angle_index >= self.angles@.len(),
    {
        self.active_angle()
    }
}

/// Position of the first angle with id `id`, if any.
pub open spec fn first_angle_pos(angles: Seq<MulticamAngle>, id: AngleId) -> Option<int> {
    if exists|i: int| 0 <= i < angles.len() && angles[i].id == id {
        Some(
            choose|i: int|
                0 <= i < angles.len() && angles[i].id == id && forall|j: int|
                    0 <= j < i ==> angles[j].id != id,
        )
    } else {
        None
    }
}

proof fn lemma_first_angle_pos_is(angles: Seq<MulticamAngle>, id: AngleId, i: int)
    requires
        0 <= i < angles.len(),
        angles[i].id == id,
        forall|j: int| 0 <= j < i ==> angles[j].id != id,
    ensures
        first_angle_pos(angles, id) == Some(i),
{
    let k = first_angle_pos(angles, id)->0;
    assert(0 <= k < angles.len() && angles[k].id == id && forall|j: int|
        0 <= j < k ==> angles[j].id != id);
    if k < i {
        assert(angles[k].id != id);
    }
    if i < k {
        assert(angles[i].id != id);
    }
}

/// Moving to the next angle and then back returns to the starting angle.
pub proof fn lemma_next_then_prev(active: int, len: int)
    requires
        0 <= active < len,
    ensures
        prev_index(next_index(active, len), len) == active,
{
    lemma_next_index_value(active, len);
}

proof fn lemma_next_index_value(active: int, len: int)
    requires
        0 <= active < len,
    ensures
        next_index(active, len) == (if active + 1 < len { active + 1 } else { 0 }),
{
    if active + 1 < len {
        vstd::arithmetic::div_mod::lemma_small_mod((active + 1) as nat, len as nat);
    } else {
        vstd::arithmetic::div_mod::lemma_mod_self_0(len);
    }
}

/// Moving back and then forward returns to the starting angle.
pub proof fn lemma_prev_then_next(active: int, len: int)
    requires
        0 <= active < len,
    ensures
        next_index(prev_index(active, len), len) == active,
{
    lemma_next_index_value(prev_index(active, len), len);
}

/// Moving between angles keeps the active index pointing at an angle.
pub proof fn lemma_moves_stay_in_range(active: int, len: int)
    requires
        len >= 1,
        0 <= active < len,
    ensures
        0 <= next_index(active, len) < len,
        0 <= prev_index(active, len) < len,
{
    lemma_next_index_value(active, len);
}

} // verus!
