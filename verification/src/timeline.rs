//! Timeline — the ordered collection of tracks, plus markers, playhead and
//! selection state, with lookup indices rebuilt after each mutation.

use vstd::prelude::*;
use std::collections::HashMap;
use crate::clip::{Clip, SemanticClip};
use crate::ids::{ClipId, TrackId};
use crate::marker::Marker;
use crate::time::Rational;
use crate::track::{Track, TrackKind, clip_pos, clips_measurable, lemma_clip_pos_is, sorted_by_start};

verus! {

broadcast use vstd::std_specs::hash::group_hash_axioms;

/// The timeline: tracks, markers, playhead, and selection state.
#[derive(Debug, Clone)]
pub struct Timeline {
    /// Frame rate this timeline runs at.
    pub frame_rate: Rational,
    /// All tracks, ordered bottom-to-top for compositing.
    pub tracks: Vec<Track>,
    /// Current playhead position in timeline frames.
    pub playhead: i64,
    pub in_point: Option<i64>,
    pub out_point: Option<i64>,
    pub markers: Vec<Marker>,
    /// AI-labelled semantic regions.
    pub semantic_clips: Vec<SemanticClip>,
    /// Currently selected clip ids.
    pub selected_clip_ids: Vec<ClipId>,
    /// Compound clip contents: compound clip id → nested tracks.
    pub compound_contents: HashMap<u64, Vec<Track>>,
    pub next_clip_id: u64,
    pub next_track_id: u64,
    /// Lookup index: clip id → id of the track that owns it.
    pub clip_track_index: HashMap<u64, TrackId>,
    /// Lookup index: track id → position in `tracks`.
    pub track_pos_index: HashMap<u64, usize>,
}

/// Position of the first track with id `id`, if any.
pub open spec fn first_track_pos(tracks: Seq<Track>, id: TrackId) -> Option<int> {
    if exists|i: int| 0 <= i < tracks.len() && tracks[i].id == id {
        Some(
            choose|i: int|
                0 <= i < tracks.len() && tracks[i].id == id && forall|j: int|
                    0 <= j < i ==> tracks[j].id != id,
        )
    } else {
        None
    }
}

/// Position of the first track holding a clip with id `cid`, with the clip's
/// position in it.
pub open spec fn first_clip_slot(tracks: Seq<Track>, cid: ClipId) -> Option<(int, int)> {
    if exists|i: int| 0 <= i < tracks.len() && clip_pos(tracks[i].clips@, cid) is Some {
        let t = choose|i: int|
            0 <= i < tracks.len() && clip_pos(tracks[i].clips@, cid) is Some && forall|j: int|
                0 <= j < i ==> clip_pos(tracks[j].clips@, cid) is None;
        Some((t, clip_pos(tracks[t].clips@, cid)->0))
    } else {
        None
    }
}

/// Track position → id map built by visiting tracks in order (a later
/// duplicate id overrides an earlier one).
pub open spec fn pos_map(tracks: Seq<Track>) -> Map<u64, usize>
    decreases tracks.len(),
{
    if tracks.len() == 0 {
        Map::empty()
    } else {
        pos_map(tracks.drop_last()).insert(tracks.last().id.0, (tracks.len() - 1) as usize)
    }
}

/// `m` with every clip id of `clips` mapped to `tid`, visiting clips in order.
pub open spec fn clips_into(m: Map<u64, TrackId>, clips: Seq<Clip>, tid: TrackId) -> Map<u64, TrackId>
    decreases clips.len(),
{
    if clips.len() == 0 {
        m
    } else {
        clips_into(m, clips.drop_last(), tid).insert(clips.last().id.0, tid)
    }
}

/// Clip id → owning track id map built by visiting tracks and their clips in
/// order.
pub open spec fn owner_map(tracks: Seq<Track>) -> Map<u64, TrackId>
    decreases tracks.len(),
{
    if tracks.len() == 0 {
        Map::empty()
    } else {
        clips_into(owner_map(tracks.drop_last()), tracks.last().clips@, tracks.last().id)
    }
}

/// The tracks of `kind`, in order.
pub open spec fn kind_filter(tracks: Seq<Track>, kind: TrackKind) -> Seq<Track>
    decreases tracks.len(),
{
    if tracks.len() == 0 {
        Seq::empty()
    } else if tracks.last().kind == kind {
        kind_filter(tracks.drop_last(), kind).push(tracks.last())
    } else {
        kind_filter(tracks.drop_last(), kind)
    }
}

proof fn lemma_first_track_pos_is(tracks: Seq<Track>, id: TrackId, i: int)
    requires
        0 <= i < tracks.len(),
        tracks[i].id == id,
        forall|j: int| 0 <= j < i ==> tracks[j].id != id,
    ensures
        first_track_pos(tracks, id) == Some(i),
{
    let k = first_track_pos(tracks, id)->0;
    assert(0 <= k < tracks.len() && tracks[k].id == id && forall|j: int|
        0 <= j < k ==> tracks[j].id != id);
    if k < i {
        assert(tracks[k].id != id);
    }
    if i < k {
        assert(tracks[i].id != id);
    }
}

proof fn lemma_first_clip_slot_is(tracks: Seq<Track>, cid: ClipId, i: int)
    requires
        0 <= i < tracks.len(),
        clip_pos(tracks[i].clips@, cid) is Some,
        forall|j: int| 0 <= j < i ==> clip_pos(tracks[j].clips@, cid) is None,
    ensures
        first_clip_slot(tracks, cid) == Some((i, clip_pos(tracks[i].clips@, cid)->0)),
{
    let k = choose|k: int|
        0 <= k < tracks.len() && clip_pos(tracks[k].clips@, cid) is Some && forall|j: int|
            0 <= j < k ==> clip_pos(tracks[j].clips@, cid) is None;
    assert(0 <= k < tracks.len() && clip_pos(tracks[k].clips@, cid) is Some);
    if k < i {
        assert(clip_pos(tracks[k].clips@, cid) is None);
    }
    if i < k {
        assert(clip_pos(tracks[i].clips@, cid) is None);
    }
}

/// Position of the first track with id `id`.
fn scan_tracks(tracks: &Vec<Track>, id: TrackId) -> (r: Option<usize>)
    ensures
        r matches Some(i) ==> first_track_pos(tracks@, id) == Some(i as int) && i < tracks@.len()
            && tracks@[i as int].id == id,
        r is None ==> first_track_pos(tracks@, id) is None,
{
    let mut i: usize = 0;
    while i < tracks.len()
        invariant
            0 <= i <= tracks@.len(),
            forall|j: int| 0 <= j < i ==> tracks@[j].id != id,
        decreases tracks@.len() - i,
    {
        if tracks[i].id == id {
            proof {
                lemma_first_track_pos_is(tracks@, id, i as int);
            }
            return Some(i);
        }
        i = i + 1;
    }
    None
}

/// First track holding a clip with id `cid`, with the clip's position.
fn scan_clip_slot(tracks: &Vec<Track>, cid: ClipId) -> (r: Option<(usize, usize)>)
    ensures
        r matches Some((t, k)) ==> first_clip_slot(tracks@, cid) == Some((t as int, k as int))
            && t < tracks@.len() && k < tracks@[t as int].clips@.len()
            && tracks@[t as int].clips@[k as int].id == cid,
        r is None ==> first_clip_slot(tracks@, cid) is None,
{
    let mut i: usize = 0;
    while i < tracks.len()
        invariant
            0 <= i <= tracks@.len(),
            forall|j: int| 0 <= j < i ==> clip_pos(#[trigger] tracks@[j].clips@, cid) is None,
        decreases tracks@.len() - i,
    {
        match tracks[i].clip_index(cid) {
            Some(k) => {
                proof {
                    lemma_first_clip_slot_is(tracks@, cid, i as int);
                }
                return Some((i, k));
            },
            None => {},
        }
        i = i + 1;
    }
    None
}

impl Timeline {
    /// Every clip of every track has a non-negative duration and an end frame
    /// that fits in `i64`.
    pub open spec fn measurable(self) -> bool {
        forall|i: int| 0 <= i < self.tracks@.len() ==> #[trigger] clips_measurable(self.tracks@[i].clips@)
    }

    /// The end of the last clip of every track fits in `i64` (what the
    /// timeline's duration reads).
    pub open spec fn last_ends_fit(self) -> bool {
        forall|i: int| 0 <= i < self.tracks@.len() ==> #[trigger] last_end_fits(self.tracks@[i])
    }

    /// The indices describe the current tracks.
    pub open spec fn index_fresh(self) -> bool {
        &&& self.track_pos_index@ == pos_map(self.tracks@)
        &&& self.clip_track_index@ == owner_map(self.tracks@)
    }

    /// Position of the track with id `id`: the indexed position when the
    /// index entry points at a track with that id, otherwise the first track
    /// with that id.
    pub open spec fn track_slot(self, id: TrackId) -> Option<int> {
        let m = self.track_pos_index@;
        if m.contains_key(id.0) && (m[id.0] as int) < self.tracks@.len() && self.tracks@[m[id.0] as int].id
            == id {
            Some(m[id.0] as int)
        } else {
            first_track_pos(self.tracks@, id)
        }
    }

    /// The empty state of a timeline at `frame_rate`.
    pub open spec fn is_empty_at(self, frame_rate: Rational) -> bool {
        &&& self.frame_rate == frame_rate
        &&& self.tracks@.len() == 0
        &&& self.playhead == 0
        &&& self.in_point is None && self.out_point is None
        &&& self.markers@.len() == 0 && self.semantic_clips@.len() == 0
        &&& self.selected_clip_ids@.len() == 0
        &&& self.compound_contents@ == Map::<u64, Vec<Track>>::empty()
        &&& self.next_clip_id == 1 && self.next_track_id == 1
        &&& self.clip_track_index@ == Map::<u64, TrackId>::empty()
        &&& self.track_pos_index@ == Map::<u64, usize>::empty()
    }

    pub fn new(frame_rate: Rational) -> (t: Self)
        ensures
            t.is_empty_at(frame_rate),
            t.index_fresh(),
    {
        let t = Timeline {
            frame_rate,
            tracks: Vec::new(),
            playhead: 0,
            in_point: None,
            out_point: None,
            markers: Vec::new(),
            semantic_clips: Vec::new(),
            selected_clip_ids: Vec::new(),
            compound_contents: HashMap::new(),
            next_clip_id: 1,
            next_track_id: 1,
            clip_track_index: HashMap::new(),
            track_pos_index: HashMap::new(),
        };
        assert(t.clip_track_index@ == owner_map(t.tracks@));
        assert(t.track_pos_index@ == pos_map(t.tracks@));
        t
    }

    /// Rebuild the lookup indices from the current tracks and clips.
    pub fn rebuild_index(&mut self)
        ensures
            final(self).index_fresh(),
            final(self).tracks == old(self).tracks,
            final(self).frame_rate == old(self).frame_rate,
            final(self).playhead == old(self).playhead,
            final(self).in_point == old(self).in_point,
            final(self).out_point == old(self).out_point,
            final(self).markers == old(self).markers,
            final(self).semantic_clips == old(self).semantic_clips,
            final(self).selected_clip_ids == old(self).selected_clip_ids,
            final(self).compound_contents == old(self).compound_contents,
            final(self).next_clip_id == old(self).next_clip_id,
            final(self).next_track_id == old(self).next_track_id,
    {
        self.track_pos_index.clear();
        self.clip_track_index.clear();
        let ghost tracks = self.tracks@;
        let mut i: usize = 0;
        assert(tracks.take(0) =~= Seq::<Track>::empty());
        while i < self.tracks.len()
            invariant
                0 <= i <= self.tracks@.len(),
                self.tracks@ == tracks,
                self.track_pos_index@ == pos_map(tracks.take(i as int)),
                self.clip_track_index@ == owner_map(tracks.take(i as int)),
                self.tracks == old(self).tracks,
                self.frame_rate == old(self).frame_rate,
                self.playhead == old(self).playhead,
                self.in_point == old(self).in_point,
                self.out_point == old(self).out_point,
                self.markers == old(self).markers,
                self.semantic_clips == old(self).semantic_clips,
                self.selected_clip_ids == old(self).selected_clip_ids,
                self.compound_contents == old(self).compound_contents,
                self.next_clip_id == old(self).next_clip_id,
                self.next_track_id == old(self).next_track_id,
            decreases self.tracks@.len() - i,
        {
            let tid = self.tracks[i].id;
            assert(tracks.take(i + 1).drop_last() =~= tracks.take(i as int));
            self.track_pos_index.insert(tid.0, i);
            let ghost base = self.clip_track_index@;
            let mut k: usize = 0;
            let ghost clips = tracks[i as int].clips@;
            assert(clips.take(0) =~= Seq::<Clip>::empty());
            while k < self.tracks[i].clips.len()
                invariant
                    0 <= i < self.tracks@.len(),
                    self.tracks@ == tracks,
                    clips == tracks[i as int].clips@,
                    0 <= k <= clips.len(),
                    self.clip_track_index@ == clips_into(base, clips.take(k as int), tid),
                    tid == tracks[i as int].id,
                    self.tracks == old(self).tracks,
                    self.track_pos_index@ == pos_map(tracks.take(i + 1)),
                    self.frame_rate == old(self).frame_rate,
                    self.playhead == old(self).playhead,
                    self.in_point == old(self).in_point,
                    self.out_point == old(self).out_point,
                    self.markers == old(self).markers,
                    self.semantic_clips == old(self).semantic_clips,
                    self.selected_clip_ids == old(self).selected_clip_ids,
                    self.compound_contents == old(self).compound_contents,
                    self.next_clip_id == old(self).next_clip_id,
                    self.next_track_id == old(self).next_track_id,
                decreases clips.len() - k,
            {
                let cid = self.tracks[i].clips[k].id;
                assert(clips.take(k + 1).drop_last() =~= clips.take(k as int));
                self.clip_track_index.insert(cid.0, tid);
                k = k + 1;
            }
            assert(clips.take(k as int) =~= clips);
            i = i + 1;
        }
        assert(tracks.take(i as int) =~= tracks);
    }

    /// The track with id `track_id`, for in-place changes.
    pub fn track_mut(&mut self, track_id: TrackId) -> (r: Option<&mut Track>)
        ensures
            match old(self).track_slot(track_id) {
                Some(i) => r matches Some(t) && *t == old(self).tracks@[i] && *final(self) == (Timeline {
                    tracks: final(self).tracks,
                    ..*old(self)
                }) && final(self).tracks@ == old(self).tracks@.update(i, *final(t)),
                None => r is None && *final(self) == *old(self),
            },
    {
        match self.track_index(track_id) {
            Some(i) => Some(&mut self.tracks[i]),
            None => None,
        }
    }

    /// Position of the track with id `track_id`.
    pub fn track_index(&self, track_id: TrackId) -> (r: Option<usize>)
        ensures
            r matches Some(i) ==> self.track_slot(track_id) == Some(i as int) && i < self.tracks@.len()
                && self.tracks@[i as int].id == track_id,
            r is None ==> self.track_slot(track_id) is None,
    {
        match self.track_pos_index.get(&track_id.0) {
            Some(idx) => {
                let idx = *idx;
                if idx < self.tracks.len() && self.tracks[idx].id == track_id {
                    return Some(idx);
                }
            },
            None => {},
        }
        scan_tracks(&self.tracks, track_id)
    }

    pub fn track(&self, track_id: TrackId) -> (r: Option<&Track>)
        ensures
            r matches Some(t) ==> self.track_slot(track_id) matches Some(i) && *t == self.tracks@[i],
            r is None ==> self.track_slot(track_id) is None,
    {
        match self.track_index(track_id) {
            Some(i) => Some(&self.tracks[i]),
            None => None,
        }
    }

    /// The tracks of `kind`, in timeline order.
    pub fn tracks_of_kind(&self, kind: TrackKind) -> (r: Vec<&Track>)
        ensures
            r@.len() == kind_filter(self.tracks@, kind).len(),
            forall|i: int| 0 <= i < r@.len() ==> *r@[i] == kind_filter(self.tracks@, kind)[i],
    {
        let mut r: Vec<&Track> = Vec::new();
        let mut i: usize = 0;
        assert(self.tracks@.take(0) =~= Seq::<Track>::empty());
        while i < self.tracks.len()
            invariant
                0 <= i <= self.tracks@.len(),
                r@.len() == kind_filter(self.tracks@.take(i as int), kind).len(),
                forall|j: int| 0 <= j < r@.len() ==> *r@[j] == kind_filter(self.tracks@.take(i as int), kind)[j],
            decreases self.tracks@.len() - i,
        {
            assert(self.tracks@.take(i + 1).drop_last() =~= self.tracks@.take(i as int));
            if self.tracks[i].kind == kind {
                r.push(&self.tracks[i]);
            }
            i = i + 1;
        }
        assert(self.tracks@.take(i as int) =~= self.tracks@);
        r
    }

    /// Number of tracks of `kind`.
    pub fn count_of_kind(&self, kind: TrackKind) -> (n: usize)
        ensures
            n == kind_filter(self.tracks@, kind).len(),
    {
        self.tracks_of_kind(kind).len()
    }


    /// Where `clip` finds the clip `cid`: through the clip index when it names
    /// a track that can be found (the clip may then be missing from it),
    /// otherwise by scanning all tracks.
    pub open spec fn clip_read_slot(self, cid: ClipId) -> Option<(int, int)> {
        let ci = self.clip_track_index@;
        if ci.contains_key(cid.0) && self.track_slot(ci[cid.0]) is Some {
            let t = self.track_slot(ci[cid.0])->0;
            match clip_pos(self.tracks@[t].clips@, cid) {
                Some(k) => Some((t, k)),
                None => None,
            }
        } else {
            first_clip_slot(self.tracks@, cid)
        }
    }

    /// Where `clip_mut` finds the clip `cid`: through both indices when they
    /// agree with the tracks (the clip may then be missing from that track),
    /// otherwise by scanning all tracks.
    pub open spec fn clip_write_slot(self, cid: ClipId) -> Option<(int, int)> {
        let ci = self.clip_track_index@;
        let m = self.track_pos_index@;
        if ci.contains_key(cid.0) && m.contains_key(ci[cid.0].0) && (m[ci[cid.0].0] as int)
            < self.tracks@.len() && self.tracks@[m[ci[cid.0].0] as int].id == ci[cid.0] {
            let t = m[ci[cid.0].0] as int;
            match clip_pos(self.tracks@[t].clips@, cid) {
                Some(k) => Some((t, k)),
                None => None,
            }
        } else {
            first_clip_slot(self.tracks@, cid)
        }
    }

    /// The track `clip_track_id` reports for the clip `cid`: the indexed
    /// owner when the index has an entry, otherwise the first track holding it.
    pub open spec fn clip_owner(self, cid: ClipId) -> Option<TrackId> {
        let ci = self.clip_track_index@;
        if ci.contains_key(cid.0) {
            Some(ci[cid.0])
        } else {
            match first_clip_slot(self.tracks@, cid) {
                Some((t, _)) => Some(self.tracks@[t].id),
                None => None,
            }
        }
    }

    pub fn clip(&self, clip_id: ClipId) -> (r: Option<&Clip>)
        ensures
            r matches Some(c) ==> self.clip_read_slot(clip_id) matches Some((t, k)) && *c
                == self.tracks@[t].clips@[k],
            r is None ==> self.clip_read_slot(clip_id) is None,
    {
        match self.clip_track_index.get(&clip_id.0) {
            Some(tid) => {
                let tid = *tid;
                match self.track_index(tid) {
                    Some(t) => {
                        return match self.tracks[t].clip_index(clip_id) {
                            Some(k) => Some(&self.tracks[t].clips[k]),
                            None => None,
                        };
                    },
                    None => {},
                }
            },
            None => {},
        }
        match scan_clip_slot(&self.tracks, clip_id) {
            Some((t, k)) => Some(&self.tracks[t].clips[k]),
            None => None,
        }
    }

    /// Position (track, clip) of the clip that `clip_mut` edits.
    pub fn clip_slot_mut(&self, clip_id: ClipId) -> (r: Option<(usize, usize)>)
        ensures
            r matches Some((t, k)) ==> self.clip_write_slot(clip_id) == Some((t as int, k as int))
                && t < self.tracks@.len() && k < self.tracks@[t as int].clips@.len()
                && self.tracks@[t as int].clips@[k as int].id == clip_id,
            r is None ==> self.clip_write_slot(clip_id) is None,
    {
        match self.clip_track_index.get(&clip_id.0) {
            Some(tid) => {
                let tid = *tid;
                match self.track_pos_index.get(&tid.0) {
                    Some(idx) => {
                        let idx = *idx;
                        if idx < self.tracks.len() && self.tracks[idx].id == tid {
                            return match self.tracks[idx].clip_index(clip_id) {
                                Some(k) => Some((idx, k)),
                                None => None,
                            };
                        }
                    },
                    None => {},
                }
            },
            None => {},
        }
        scan_clip_slot(&self.tracks, clip_id)
    }

    /// The clip with id `clip_id`, for in-place changes (found as
    /// [`Timeline::clip_write_slot`] says).
    pub fn clip_mut(&mut self, clip_id: ClipId) -> (r: Option<&mut Clip>)
        ensures
            match old(self).clip_write_slot(clip_id) {
                Some((t, k)) => r matches Some(c) && *c == old(self).tracks@[t].clips@[k] && *final(self) == (
                Timeline { tracks: final(self).tracks, ..*old(self) })
                    && final(self).tracks@.len() == old(self).tracks@.len()
                    && (forall|j: int| 0 <= j < old(self).tracks@.len() && j != t ==> final(self).tracks@[j] == old(self).tracks@[j])
                    && final(self).tracks@[t] == (Track { clips: final(self).tracks@[t].clips, ..old(self).tracks@[t] })
                    && final(self).tracks@[t].clips@ == old(self).tracks@[t].clips@.update(k, *final(c)),
                None => r is None && *final(self) == *old(self),
            },
    {
        match self.clip_slot_mut(clip_id) {
            Some((t, k)) => Some(&mut self.tracks[t].clips[k]),
            None => None,
        }
    }

    /// Id of the track that owns the clip `clip_id`.
    pub fn clip_track_id(&self, clip_id: ClipId) -> (r: Option<TrackId>)
        ensures
            r == self.clip_owner(clip_id),
    {
        match self.clip_track_index.get(&clip_id.0) {
            Some(tid) => Some(*tid),
            None => match scan_clip_slot(&self.tracks, clip_id) {
                Some((t, _)) => Some(self.tracks[t].id),
                None => None,
            },
        }
    }

    /// Append a track; returns its id.
    pub fn add_track(&mut self, track: Track) -> (id: TrackId)
        ensures
            id == track.id,
            final(self).tracks@ == old(self).tracks@.push(track),
            *final(self) == (Timeline { tracks: final(self).tracks, ..*old(self) }),
            final(self).track_pos_index == old(self).track_pos_index,
            final(self).clip_track_index == old(self).clip_track_index,
            final(self).markers == old(self).markers,
            final(self).playhead == old(self).playhead,
            final(self).selected_clip_ids == old(self).selected_clip_ids,
            final(self).semantic_clips == old(self).semantic_clips,
    {
        let id = track.id;
        self.tracks.push(track);
        id
    }

    /// Insert `track` at position `at` (the tracks from there move up one).
    pub fn insert_track(&mut self, at: usize, track: Track) -> (id: TrackId)
        requires
            at <= old(self).tracks@.len(),
        ensures
            id == track.id,
            final(self).tracks@ == old(self).tracks@.insert(at as int, track),
            *final(self) == (Timeline { tracks: final(self).tracks, ..*old(self) }),
    {
        let id = track.id;
        self.tracks.insert(at, track);
        id
    }

    /// Remove the track with id `track_id`, returning it.
    pub fn remove_track(&mut self, track_id: TrackId) -> (r: Option<Track>)
        ensures
            match old(self).track_slot(track_id) {
                Some(i) => r == Some(old(self).tracks@[i]) && final(self).tracks@ == old(
                    self,
                ).tracks@.remove(i),
                None => r is None && *final(self) == *old(self),
            },
            *final(self) == (Timeline { tracks: final(self).tracks, ..*old(self) }),
            final(self).track_pos_index == old(self).track_pos_index,
            final(self).clip_track_index == old(self).clip_track_index,
            final(self).markers == old(self).markers,
            final(self).playhead == old(self).playhead,
            final(self).selected_clip_ids == old(self).selected_clip_ids,
            final(self).semantic_clips == old(self).semantic_clips,
    {
        match self.track_index(track_id) {
            Some(i) => Some(self.tracks.remove(i)),
            None => None,
        }
    }
}


/// Gaps between the clips of a track, scanning from `cursor`: each clip that
/// starts after the cursor leaves the gap `(cursor, start)`, and the cursor
/// moves on to the clip's end when that lies further (it never moves back,
/// so frames covered by an earlier, longer clip are no gap).
pub open spec fn gaps_from(clips: Seq<Clip>, cursor: int) -> Seq<(i64, i64)>
    decreases clips.len(),
{
    if clips.len() == 0 {
        Seq::empty()
    } else {
        let c = clips[0];
        let rest = gaps_from(clips.drop_first(), if c.end() > cursor { c.end() } else { cursor });
        if c.timeline_in > cursor {
            seq![(cursor as i64, c.timeline_in)] + rest
        } else {
            rest
        }
    }
}

/// On a track whose clips are in start order, every gap found from a
/// cursor is a non-empty range at or after the cursor that overlaps no
/// clip: each clip ends at or before the gap's start or starts at or after
/// its end.
pub proof fn lemma_gaps_uncovered(clips: Seq<Clip>, cursor: int, k: int, j: int)
    requires
        sorted_by_start(clips),
        clips_measurable(clips),
        i64::MIN <= cursor <= i64::MAX,
        0 <= k < gaps_from(clips, cursor).len(),
        0 <= j < clips.len(),
    ensures
        cursor <= gaps_from(clips, cursor)[k].0 < gaps_from(clips, cursor)[k].1,
        clips[j].end() <= gaps_from(clips, cursor)[k].0 || gaps_from(clips, cursor)[k].1 <= clips[j].timeline_in,
    decreases clips.len(),
{
    let c = clips[0];
    assert(c.end_fits() && c.dur() >= 0);
    let nc = if c.end() > cursor { c.end() } else { cursor };
    let rest = clips.drop_first();
    let g = gaps_from(clips, cursor);
    if c.timeline_in > cursor && k == 0 {
        assert(g[0] == (cursor as i64, c.timeline_in));
        if j > 0 {
            assert(clips[0].timeline_in <= clips[j].timeline_in);
        }
    } else {
        let k2 = if c.timeline_in > cursor { k - 1 } else { k };
        assert(g[k] == gaps_from(rest, nc)[k2]);
        assert(sorted_by_start(rest)) by {
            assert forall|a: int, b: int| 0 <= a < b < rest.len() implies rest[a].timeline_in <= rest[b].timeline_in by {
                assert(rest[a] == clips[a + 1] && rest[b] == clips[b + 1]);
            }
        }
        assert(clips_measurable(rest)) by {
            assert forall|a: int| 0 <= a < rest.len() implies #[trigger] rest[a].end_fits() && rest[a].dur() >= 0 by {
                assert(rest[a] == clips[a + 1]);
            }
        }
        if j > 0 {
            assert(rest[j - 1] == clips[j]);
            lemma_gaps_uncovered(rest, nc, k2, j - 1);
        } else if rest.len() > 0 {
            lemma_gaps_uncovered(rest, nc, k2, 0);
        }
    }
}

/// Frame `f` lies in some clip of `clips`.
pub open spec fn covered(clips: Seq<Clip>, f: int) -> bool {
    exists|j: int| 0 <= j < clips.len() && #[trigger] clips[j].timeline_in <= f && f < clips[j].end()
}

/// The gaps found from a cursor miss no free frame: a frame at or after the
/// cursor that no clip covers, with some clip ending after it, lies inside
/// one of the gaps.  With [`lemma_gaps_uncovered`], the gaps of a track in
/// start order are exactly its uncovered frames before its last end.
pub proof fn lemma_gaps_complete(clips: Seq<Clip>, cursor: int, f: int, j: int)
    requires
        clips_measurable(clips),
        i64::MIN <= cursor <= i64::MAX,
        cursor <= f,
        !covered(clips, f),
        0 <= j < clips.len(),
        f < clips[j].end(),
    ensures
        exists|k: int|
            0 <= k < gaps_from(clips, cursor).len() && #[trigger] gaps_from(clips, cursor)[k].0 <= f && f
                < gaps_from(clips, cursor)[k].1,
    decreases clips.len(),
{
    let c = clips[0];
    assert(c.end_fits() && c.dur() >= 0);
    let nc = if c.end() > cursor { c.end() } else { cursor };
    let rest = clips.drop_first();
    let g = gaps_from(clips, cursor);
    if f < c.timeline_in {
        assert(c.timeline_in > cursor);
        assert(g[0] == (cursor as i64, c.timeline_in));
        assert(g[0].0 <= f && f < g[0].1);
    } else {
        if f < c.end() {
            assert(covered(clips, f));
        }
        assert(j != 0);
        assert(clips_measurable(rest)) by {
            assert forall|a: int| 0 <= a < rest.len() implies #[trigger] rest[a].end_fits() && rest[a].dur() >= 0 by {
                assert(rest[a] == clips[a + 1]);
            }
        }
        assert(!covered(rest, f)) by {
            if covered(rest, f) {
                let w = choose|w: int| 0 <= w < rest.len() && #[trigger] rest[w].timeline_in <= f && f < rest[w].end();
                assert(rest[w] == clips[w + 1]);
                assert(clips[w + 1].timeline_in <= f);
            }
        }
        assert(rest[j - 1] == clips[j]);
        lemma_gaps_complete(rest, nc, f, j - 1);
        let r = gaps_from(rest, nc);
        let k = choose|k: int| 0 <= k < r.len() && #[trigger] r[k].0 <= f && f < r[k].1;
        if c.timeline_in > cursor {
            assert(g == seq![(cursor as i64, c.timeline_in)] + r);
            assert(g[k + 1] == r[k]);
            assert(g[k + 1].0 <= f);
        } else {
            assert(g == r);
            assert(g[k].0 <= f);
        }
    }
}

/// The id `id` with the selection toggled: removed at its first position
/// when selected, appended otherwise.
pub open spec fn toggled(sel: Seq<ClipId>, id: ClipId) -> Seq<ClipId> {
    match first_id_pos(sel, id) {
        Some(i) => sel.remove(i),
        None => sel.push(id),
    }
}

/// Position of the first occurrence of `id` in `sel`, if any.
pub open spec fn first_id_pos(sel: Seq<ClipId>, id: ClipId) -> Option<int> {
    if exists|i: int| 0 <= i < sel.len() && sel[i] == id {
        Some(choose|i: int| 0 <= i < sel.len() && sel[i] == id && forall|j: int| 0 <= j < i ==> sel[j] != id)
    } else {
        None
    }
}

fn position_of(sel: &Vec<ClipId>, id: ClipId) -> (r: Option<usize>)
    ensures
        r matches Some(i) ==> first_id_pos(sel@, id) == Some(i as int) && i < sel@.len(),
        r is None ==> first_id_pos(sel@, id) is None,
{
    let mut i: usize = 0;
    while i < sel.len()
        invariant
            0 <= i <= sel@.len(),
            forall|j: int| 0 <= j < i ==> sel@[j] != id,
        decreases sel@.len() - i,
    {
        if sel[i] == id {
            proof {
                let k = first_id_pos(sel@, id)->0;
                assert(0 <= k < sel@.len() && sel@[k] == id && forall|j: int| 0 <= j < k ==> sel@[j] != id);
                if k < i {
                    assert(sel@[k] != id);
                }
                if i < k {
                    assert(sel@[i as int] != id);
                }
            }
            return Some(i);
        }
        i = i + 1;
    }
    None
}

/// Compositing order rank of a track kind: video, audio, text, effect.
pub open spec fn kind_rank(kind: TrackKind) -> int {
    match kind {
        TrackKind::Video => 0,
        TrackKind::Audio => 1,
        TrackKind::Text => 2,
        TrackKind::Effect => 3,
    }
}

/// Compositing order rank of a track kind.
pub fn track_order(kind: TrackKind) -> (r: u8)
    ensures
        r == kind_rank(kind),
{
    match kind {
        TrackKind::Video => 0,
        TrackKind::Audio => 1,
        TrackKind::Text => 2,
        TrackKind::Effect => 3,
    }
}

impl Timeline {
    /// The gaps on the track with id `track_id` (none when there is no such
    /// track).
    pub fn find_gaps(&self, track_id: TrackId) -> (r: Vec<(i64, i64)>)
        requires
            match self.track_slot(track_id) {
                Some(t) => clips_measurable(self.tracks@[t].clips@),
                None => true,
            },
        ensures
            match self.track_slot(track_id) {
                Some(t) => r@ == gaps_from(self.tracks@[t].clips@, 0),
                None => r@.len() == 0,
            },
    {
        let t = match self.track_index(track_id) {
            Some(t) => t,
            None => return Vec::new(),
        };
        let clips = &self.tracks[t].clips;
        assert(clips_measurable(self.tracks@[t as int].clips@));
        let mut gaps: Vec<(i64, i64)> = Vec::new();
        let mut cursor: i64 = 0;
        let mut i: usize = 0;
        assert(clips@.skip(0) =~= clips@);
        while i < clips.len()
            invariant
                0 <= i <= clips@.len(),
                clips_measurable(clips@),
                gaps@ + gaps_from(clips@.skip(i as int), cursor as int) == gaps_from(clips@, 0),
            decreases clips@.len() - i,
        {
            let c = &clips[i];
            assert(clips@[i as int].end_fits() && clips@[i as int].dur() >= 0);
            let ghost rest = clips@.skip(i as int);
            assert(rest[0] == clips@[i as int]);
            assert(rest.drop_first() =~= clips@.skip(i + 1));
            let ghost old_gaps = gaps@;
            if c.timeline_in > cursor {
                gaps.push((cursor, c.timeline_in));
                assert(gaps@ =~= old_gaps + seq![(cursor, c.timeline_in)]);
                assert(old_gaps + (seq![(cursor, c.timeline_in)] + gaps_from(
                    rest.drop_first(),
                    if c.end() > cursor { c.end() } else { cursor as int },
                )) =~= gaps@ + gaps_from(rest.drop_first(), if c.end() > cursor { c.end() } else { cursor as int }));
            }
            let end = c.timeline_in + c.duration();
            if end > cursor {
                cursor = end;
            }
            i = i + 1;
        }
        assert(clips@.skip(i as int) =~= Seq::<Clip>::empty());
        assert(gaps@ + Seq::<(i64, i64)>::empty() =~= gaps@);
        gaps
    }

    /// Select exactly the clip `clip_id`.
    pub fn select(&mut self, clip_id: ClipId)
        ensures
            final(self).selected_clip_ids@ == seq![clip_id],
            final(self).tracks == old(self).tracks,
            final(self).markers == old(self).markers,
            final(self).playhead == old(self).playhead,
    {
        let mut v: Vec<ClipId> = Vec::new();
        v.push(clip_id);
        self.selected_clip_ids = v;
    }

    /// Add the clip to the selection, or remove it when already selected.
    pub fn toggle_select(&mut self, clip_id: ClipId)
        ensures
            final(self).selected_clip_ids@ == toggled(old(self).selected_clip_ids@, clip_id),
            final(self).tracks == old(self).tracks,
            final(self).markers == old(self).markers,
            final(self).playhead == old(self).playhead,
    {
        match position_of(&self.selected_clip_ids, clip_id) {
            Some(i) => {
                self.selected_clip_ids.remove(i);
            },
            None => {
                self.selected_clip_ids.push(clip_id);
            },
        }
    }

    pub fn clear_selection(&mut self)
        ensures
            final(self).selected_clip_ids@.len() == 0,
            final(self).tracks == old(self).tracks,
            final(self).markers == old(self).markers,
            final(self).playhead == old(self).playhead,
    {
        self.selected_clip_ids.clear();
    }
}


/// The largest end frame among the last clips of the non-empty tracks.
pub open spec fn ends_max(tracks: Seq<Track>) -> Option<int>
    decreases tracks.len(),
{
    if tracks.len() == 0 {
        None
    } else {
        let r = ends_max(tracks.drop_last());
        let t = tracks.last();
        if t.clips@.len() == 0 {
            r
        } else {
            let e = t.clips@.last().end();
            match r {
                None => Some(e),
                Some(m) => Some(if m >= e { m } else { e }),
            }
        }
    }
}

/// No clip of `t` ends after its last clip (as on a track kept in start
/// order without overlaps).
pub open spec fn last_clip_ends_last(t: Track) -> bool {
    forall|k: int| 0 <= k < t.clips@.len() ==> #[trigger] t.clips@[k].end() <= t.clips@.last().end()
}

/// The timeline's length is the end of the latest last clip over every
/// track of any kind: no track's last clip ends after it, it is the end of
/// some track's last clip, and it is 0 only when no track has clips.  When
/// every track's last clip ends last, no clip at all ends after it.
pub proof fn lemma_duration_is_latest_end(tracks: Seq<Track>)
    ensures
        forall|t: int|
            0 <= t < tracks.len() && #[trigger] tracks[t].clips@.len() > 0 ==> ends_max(tracks) is Some
                && tracks[t].clips@.last().end() <= ends_max(tracks)->0,
        ends_max(tracks) matches Some(m) ==> exists|t: int|
            0 <= t < tracks.len() && #[trigger] tracks[t].clips@.len() > 0 && tracks[t].clips@.last().end() == m,
        ends_max(tracks) is None ==> forall|t: int| 0 <= t < tracks.len() ==> #[trigger] tracks[t].clips@.len() == 0,
        (forall|t: int| 0 <= t < tracks.len() ==> #[trigger] last_clip_ends_last(tracks[t])) ==> forall|t: int, k: int|
            0 <= t < tracks.len() && 0 <= k < tracks[t].clips@.len() ==> ends_max(tracks) is Some
                && #[trigger] tracks[t].clips@[k].end() <= ends_max(tracks)->0,
    decreases tracks.len(),
{
    if tracks.len() > 0 {
        let prev = tracks.drop_last();
        lemma_duration_is_latest_end(prev);
        let last = tracks.last();
        assert forall|t: int| 0 <= t < prev.len() implies #[trigger] prev[t] == tracks[t] by {}
        if let Some(m) = ends_max(prev) {
            let w = choose|t: int| 0 <= t < prev.len() && #[trigger] prev[t].clips@.len() > 0 && prev[t].clips@.last().end() == m;
            assert(tracks[w] == prev[w]);
        }
        assert forall|t: int|
            0 <= t < tracks.len() && #[trigger] tracks[t].clips@.len() > 0 implies ends_max(tracks) is Some
                && tracks[t].clips@.last().end() <= ends_max(tracks)->0 by {
            if t < prev.len() {
                assert(prev[t] == tracks[t]);
                assert(prev[t].clips@.len() > 0);
            }
        }
        if ends_max(tracks) is None {
            assert forall|t: int| 0 <= t < tracks.len() implies #[trigger] tracks[t].clips@.len() == 0 by {
                if t < prev.len() {
                    assert(prev[t] == tracks[t]);
                }
            }
        }
        if (forall|t: int| 0 <= t < tracks.len() ==> #[trigger] last_clip_ends_last(tracks[t])) {
            assert(forall|t: int| 0 <= t < prev.len() ==> #[trigger] last_clip_ends_last(prev[t])) by {
                assert forall|t: int| 0 <= t < prev.len() implies #[trigger] last_clip_ends_last(prev[t]) by {
                    assert(prev[t] == tracks[t]);
                    assert(last_clip_ends_last(tracks[t]));
                }
            }
            assert forall|t: int, k: int|
                0 <= t < tracks.len() && 0 <= k < tracks[t].clips@.len() implies ends_max(tracks) is Some
                    && #[trigger] tracks[t].clips@[k].end() <= ends_max(tracks)->0 by {
                assert(last_clip_ends_last(tracks[t]));
                assert(tracks[t].clips@[k].end() <= tracks[t].clips@.last().end());
                if t < prev.len() {
                    assert(prev[t] == tracks[t]);
                    assert(prev[t].clips@[k].end() <= ends_max(prev)->0);
                }
            }
        }
    }
}

/// Tracks in compositing order: video, then audio, then text, then effect
/// tracks, each group in timeline order.
pub open spec fn ordered_tracks(tracks: Seq<Track>) -> Seq<Track> {
    kind_filter(tracks, TrackKind::Video) + kind_filter(tracks, TrackKind::Audio) + kind_filter(
        tracks,
        TrackKind::Text,
    ) + kind_filter(tracks, TrackKind::Effect)
}

/// Append references to the tracks of `kind` to `acc`.
fn push_kind<'a>(tracks: &'a Vec<Track>, kind: TrackKind, acc: &mut Vec<&'a Track>)
    ensures
        final(acc)@.len() == old(acc)@.len() + kind_filter(tracks@, kind).len(),
        forall|i: int| 0 <= i < old(acc)@.len() ==> final(acc)@[i] == old(acc)@[i],
        forall|i: int|
            0 <= i < kind_filter(tracks@, kind).len() ==> *final(acc)@[old(acc)@.len() + i]
                == kind_filter(tracks@, kind)[i],
{
    let ghost base = acc@;
    let mut i: usize = 0;
    assert(tracks@.take(0) =~= Seq::<Track>::empty());
    while i < tracks.len()
        invariant
            0 <= i <= tracks@.len(),
            acc@.len() == base.len() + kind_filter(tracks@.take(i as int), kind).len(),
            forall|j: int| 0 <= j < base.len() ==> acc@[j] == base[j],
            forall|j: int|
                0 <= j < kind_filter(tracks@.take(i as int), kind).len() ==> *acc@[base.len() + j]
                    == kind_filter(tracks@.take(i as int), kind)[j],
            base == old(acc)@,
        decreases tracks@.len() - i,
    {
        assert(tracks@.take(i + 1).drop_last() =~= tracks@.take(i as int));
        if tracks[i].kind == kind {
            acc.push(&tracks[i]);
        }
        i = i + 1;
    }
    assert(tracks@.take(i as int) =~= tracks@);
}

/// The end of the last clip of `t` (if any) fits in `i64`.
pub open spec fn last_end_fits(t: Track) -> bool {
    t.clips@.len() > 0 ==> t.clips@[t.clips@.len() - 1].end_fits()
}

/// A measurable timeline has every last clip end in range.
pub proof fn lemma_measurable_last_ends(tl: Timeline)
    requires
        tl.measurable(),
    ensures
        tl.last_ends_fit(),
{
    assert forall|i: int| 0 <= i < tl.tracks@.len() implies #[trigger] last_end_fits(tl.tracks@[i]) by {
        assert(clips_measurable(tl.tracks@[i].clips@));
        let cs = tl.tracks@[i].clips@;
        if cs.len() > 0 {
            assert(cs[cs.len() - 1].end_fits());
        }
    }
}

impl Timeline {
    /// Total timeline duration in frames: the end of the latest clip.
    pub fn duration(&self) -> (d: i64)
        requires
            self.last_ends_fit(),
        ensures
            d == match ends_max(self.tracks@) {
                Some(m) => m,
                None => 0,
            },
    {
        let mut best: Option<i64> = None;
        let mut i: usize = 0;
        assert(self.tracks@.take(0) =~= Seq::<Track>::empty());
        while i < self.tracks.len()
            invariant
                0 <= i <= self.tracks@.len(),
                self.last_ends_fit(),
                best == match ends_max(self.tracks@.take(i as int)) {
                    Some(m) => Some(m as i64),
                    None => None::<i64>,
                },
                ends_max(self.tracks@.take(i as int)) matches Some(m) ==> i64::MIN <= m <= i64::MAX,
            decreases self.tracks@.len() - i,
        {
            assert(self.tracks@.take(i + 1).drop_last() =~= self.tracks@.take(i as int));
            assert(self.tracks@.take(i + 1).last() == self.tracks@[i as int]);
            let t = &self.tracks[i];
            if t.clips.len() > 0 {
                assert(last_end_fits(self.tracks@[i as int]));
                let c = &t.clips[t.clips.len() - 1];
                assert(t.clips@[t.clips@.len() - 1].end_fits());
                let e = c.timeline_in + c.duration();
                best = match best {
                    None => Some(e),
                    Some(m) => Some(if m >= e { m } else { e }),
                };
            }
            i = i + 1;
        }
        assert(self.tracks@.take(i as int) =~= self.tracks@);
        match best {
            Some(m) => m,
            None => 0,
        }
    }

    /// Tracks in compositing order: video, audio, text, then effect tracks.
    pub fn tracks_ordered(&self) -> (r: Vec<&Track>)
        ensures
            r@.len() == ordered_tracks(self.tracks@).len(),
            forall|i: int| 0 <= i < r@.len() ==> *r@[i] == ordered_tracks(self.tracks@)[i],
    {
        let mut r: Vec<&Track> = Vec::new();
        push_kind(&self.tracks, TrackKind::Video, &mut r);
        push_kind(&self.tracks, TrackKind::Audio, &mut r);
        push_kind(&self.tracks, TrackKind::Text, &mut r);
        push_kind(&self.tracks, TrackKind::Effect, &mut r);
        proof {
            let v = kind_filter(self.tracks@, TrackKind::Video);
            let a = kind_filter(self.tracks@, TrackKind::Audio);
            let t = kind_filter(self.tracks@, TrackKind::Text);
            let e = kind_filter(self.tracks@, TrackKind::Effect);
            let all = ordered_tracks(self.tracks@);
            assert forall|i: int| 0 <= i < r@.len() implies *r@[i] == all[i] by {
                if i < v.len() {
                } else if i < v.len() + a.len() {
                } else if i < v.len() + a.len() + t.len() {
                } else {
                }
            }
        }
        r
    }
}

} // verus!
