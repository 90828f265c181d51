//! Repairs applied to a project loaded from disk: tracks that share an id
//! get fresh ones, and an asset with sound but no clip on an audio track
//! gets one, placed under its video clip.

use vstd::prelude::*;
use vstd::string::StringExecFns;
use crate::apply::{EngineError, find_track, track_at};
use crate::asset::{Asset, after_last, stem_of_name};
use crate::clip::{BlendMode, Clip};
use crate::ids::{AssetId, ClipId, TrackId};
use crate::project::{Project, asset_pos};
use crate::restructure::{inserted_into, is_new_clip, lemma_unit_speed_len};
use crate::time::Rational;
use crate::timeline::{Timeline, ends_max, kind_filter};
use crate::track::{Track, TrackHeight, TrackKind, insert_clip_outcome};
use crate::transform::Transform;

verus! {

/// An audio clip to add: the asset, where it starts, how many frames it
/// lasts, and the link group of the video clip it follows.
pub type AudioRepair = (AssetId, i64, i64, Option<u64>);

/// Whether `a` carries sound.
pub open spec fn has_audio(a: Asset) -> bool {
    match a {
        Asset::Video(v) => (v.metadata.video matches Some(vm) && vm.has_audio) || v.metadata.audio is Some,
        Asset::Audio(_) => true,
        _ => false,
    }
}

/// Some audio track of `tracks` holds a clip of asset `id`.
pub open spec fn has_audio_clip(tracks: Seq<Track>, id: AssetId) -> bool {
    exists|t: int, k: int|
        0 <= t < tracks.len() && tracks[t].kind == TrackKind::Audio && 0 <= k < tracks[t].clips@.len()
            && #[trigger] tracks[t].clips@[k].asset_id == id
}

/// Position of the first clip of `clips` that plays asset `id`.
pub open spec fn asset_clip_pos(clips: Seq<Clip>, id: AssetId) -> Option<int> {
    if exists|k: int| 0 <= k < clips.len() && clips[k].asset_id == id {
        Some(
            choose|k: int|
                0 <= k < clips.len() && clips[k].asset_id == id && forall|j: int| 0 <= j < k ==> clips[j].asset_id != id,
        )
    } else {
        None
    }
}

/// Where the video clip of asset `id` sits: the start and link group of the
/// first clip of that asset on the last video track holding one.
pub open spec fn video_anchor(tracks: Seq<Track>, id: AssetId) -> Option<(i64, Option<u64>)>
    decreases tracks.len(),
{
    if tracks.len() == 0 {
        None
    } else {
        let t = tracks.last();
        let here = if t.kind == TrackKind::Video {
            match asset_clip_pos(t.clips@, id) {
                Some(k) => Some((t.clips@[k].timeline_in, t.clips@[k].link_group_id)),
                None => None,
            }
        } else {
            None
        };
        match here {
            Some(x) => Some(x),
            None => video_anchor(tracks.drop_last(), id),
        }
    }
}

/// The frame count of a timeline: the end of its latest clip, or 0.
pub open spec fn timeline_total(t: Timeline) -> int {
    match ends_max(t.tracks@) {
        Some(m) => m,
        None => 0,
    }
}

/// The audio clip `a` is owed in `p`, if any: an asset with sound and no
/// clip on an audio track gets one as long as its duration (300 frames when
/// unknown), at its video clip's start and in its link group, or at the end
/// of the timeline when it has no video clip.
pub open spec fn repair_of(p: Project, a: Asset) -> Option<AudioRepair> {
    let id = a.spec_id();
    if !has_audio(a) || has_audio_clip(p.timeline.tracks@, id) {
        None
    } else {
        let dur = match a.meta().duration_frames {
            Some(d) => d,
            None => 300,
        };
        match video_anchor(p.timeline.tracks@, id) {
            Some((pos, lg)) => Some((id, pos, dur, lg)),
            None => Some((id, timeline_total(p.timeline) as i64, dur, None)),
        }
    }
}

/// The audio clips owed for `assets`, in asset order.
pub open spec fn plan_over(p: Project, assets: Seq<Asset>) -> Seq<AudioRepair>
    decreases assets.len(),
{
    if assets.len() == 0 {
        Seq::empty()
    } else {
        let prev = plan_over(p, assets.drop_last());
        match repair_of(p, assets.last()) {
            Some(r) => prev.push(r),
            None => prev,
        }
    }
}

/// The audio clips owed in `p`.
pub open spec fn repair_plan(p: Project) -> Seq<AudioRepair> {
    plan_over(p, p.assets@)
}

/// Every owed clip of positive duration ends at a frame that fits in `i64`.
pub open spec fn repairs_fit(plan: Seq<AudioRepair>) -> bool {
    forall|j: int| 0 <= j < plan.len() && #[trigger] plan[j].2 > 0 ==> plan[j].1 + plan[j].2 <= i64::MAX
}

/// Some track before position `i` has the id of the track at `i`.
pub open spec fn id_seen_before(tracks: Seq<Track>, i: int) -> bool {
    exists|j: int| 0 <= j < i && tracks[j].id == tracks[i].id
}

/// No two of `tracks` share an id.
pub open spec fn ids_distinct(tracks: Seq<Track>) -> bool {
    forall|a: int, b: int| 0 <= a < b < tracks.len() ==> #[trigger] tracks[a].id != #[trigger] tracks[b].id
}

/// `id` is the id of no track of `tracks`.
pub open spec fn id_unused(tracks: Seq<Track>, id: TrackId) -> bool {
    forall|j: int| 0 <= j < tracks.len() ==> #[trigger] tracks[j].id != id
}

/// `post` is `pre` with every track whose id an earlier track already has
/// given a fresh, non-zero id that no track of `pre` has; the other tracks
/// are unchanged, and no two tracks of `post` share an id.
pub open spec fn ids_deduplicated(pre: Seq<Track>, post: Seq<Track>) -> bool {
    &&& post.len() == pre.len()
    &&& forall|i: int|
        0 <= i < pre.len() ==> if id_seen_before(pre, i) {
            &&& #[trigger] post[i] == (Track { id: post[i].id, ..pre[i] })
            &&& post[i].id.0 != 0
            &&& id_unused(pre, post[i].id)
        } else {
            post[i] == pre[i]
        }
    &&& ids_distinct(post)
}

/// Position of the first audio track.
pub open spec fn first_audio_pos(tracks: Seq<Track>) -> Option<int> {
    if exists|i: int| 0 <= i < tracks.len() && tracks[i].kind == TrackKind::Audio {
        Some(
            choose|i: int|
                0 <= i < tracks.len() && tracks[i].kind == TrackKind::Audio && forall|j: int|
                    0 <= j < i ==> tracks[j].kind != TrackKind::Audio,
        )
    } else {
        None
    }
}

/// `post` is `pre`, with a new empty audio track named "A1", whose id no
/// track of `pre` has, appended when `pre` has no audio track.
pub open spec fn audio_track_ready(pre: Project, post: Project) -> bool {
    if first_audio_pos(pre.timeline.tracks@) is Some {
        post == pre
    } else {
        let t = post.timeline.tracks@.last();
        &&& post == (Project { timeline: Timeline { tracks: post.timeline.tracks, ..pre.timeline }, ..pre })
        &&& post.timeline.tracks@.len() == pre.timeline.tracks@.len() + 1
        &&& post.timeline.tracks@.drop_last() == pre.timeline.tracks@
        &&& t.id.0 != 0 && id_unused(pre.timeline.tracks@, t.id)
        &&& t.name@ == "A1"@ && t.kind == TrackKind::Audio && t.index == 0
        &&& t.visible && !t.locked && !t.muted && !t.solo && !t.disabled
        &&& t.color is None && !t.is_primary && t.gain_db is None && t.height == TrackHeight::Medium
        &&& t.clips@.len() == 0 && t.effects@.len() == 0
    }
}

/// The label of an added audio clip: its asset's file-name stem, or
/// "audio" for an unknown asset.
pub open spec fn audio_label(p: Project, id: AssetId) -> Seq<char> {
    match asset_pos(p.assets@, id) {
        Some(i) => stem_of_name(after_last(p.assets@[i].spec_path(), '/')),
        None => "audio"@,
    }
}

/// One owed clip added to the track at `t` (a clip of no frames is
/// skipped; a refused insertion leaves the track as it was).
pub open spec fn repair_step(pre: Project, rep: AudioRepair, t: int, post: Project) -> bool {
    if rep.2 <= 0 {
        post == pre
    } else {
        exists|c: Clip, r: Result<(), EngineError>|
            #![trigger inserted_into(pre, post, t, c, r)]
            is_new_clip(c, audio_label(pre, rep.0), rep.0, rep.1, 0, rep.2, rep.3) && inserted_into(pre, post, t, c, r)
    }
}

/// The owed clips of `plan` added one after the other to the track at `t`.
pub open spec fn repairs_applied(pre: Project, plan: Seq<AudioRepair>, t: int, post: Project) -> bool {
    exists|states: Seq<Project>|
        #![trigger states[plan.len() as int]]
        states.len() == plan.len() + 1 && states[0] == pre && states[plan.len() as int] == post && forall|j: int|
            0 <= j < plan.len() ==> repair_step(#[trigger] states[j], plan[j], t, states[j + 1])
}

/// The owed clips added to the first audio track (found by its id).
pub open spec fn audio_repairs_applied(pre: Project, plan: Seq<AudioRepair>, post: Project) -> bool {
    match first_audio_pos(pre.timeline.tracks@) {
        Some(a) => match track_at(pre.timeline, pre.timeline.tracks@[a].id) {
            Some(t) => repairs_applied(pre, plan, t, post),
            None => post == pre,
        },
        None => post == pre,
    }
}

/// `post` is `pre` with the lookup index rebuilt.
pub open spec fn reindexed(pre: Project, post: Project) -> bool {
    &&& post == (Project {
        timeline: Timeline {
            clip_track_index: post.timeline.clip_track_index,
            track_pos_index: post.timeline.track_pos_index,
            ..pre.timeline
        },
        ..pre
    })
    &&& post.timeline.index_fresh()
}

/// What the load-time repair does to `pre`: duplicate track ids are
/// replaced; then, when some audio clips are owed ([`repair_plan`] of the
/// loaded project), an audio track is made ready, the clips are added to the
/// first audio track and the lookup index is rebuilt.
pub open spec fn repaired(pre: Project, post: Project) -> bool {
    let plan = repair_plan(pre);
    exists|d: Project|
        #![trigger ids_deduplicated(pre.timeline.tracks@, d.timeline.tracks@)]
        d == (Project { timeline: Timeline { tracks: d.timeline.tracks, ..pre.timeline }, ..pre })
            && ids_deduplicated(pre.timeline.tracks@, d.timeline.tracks@) && if plan.len() == 0 {
            post == d
        } else {
            exists|q: Project, m: Project|
                #![trigger audio_track_ready(d, q), audio_repairs_applied(q, plan, m)]
                audio_track_ready(d, q) && audio_repairs_applied(q, plan, m) && reindexed(m, post)
        }
}

/// Whether `v` holds `x`.
fn holds_u64(v: &Vec<u64>, x: u64) -> (b: bool)
    ensures
        b == v@.contains(x),
{
    let mut i: usize = 0;
    while i < v.len()
        invariant
            0 <= i <= v@.len(),
            forall|j: int| 0 <= j < i ==> v@[j] != x,
        decreases v@.len() - i,
    {
        if v[i] == x {
            assert(v@[i as int] == x);
            return true;
        }
        i = i + 1;
    }
    false
}

/// `m` values 1 to `m` all in `used` means `used` has at least `m` elements.
proof fn lemma_pigeon(used: Seq<u64>, m: int)
    requires
        0 <= m,
        forall|x: u64| 1 <= x <= m ==> #[trigger] used.contains(x),
        m <= u64::MAX,
    ensures
        m <= used.len(),
{
    broadcast use vstd::seq_lib::seq_to_set_is_finite;
    let ints = used.map_values(|v: u64| v as int);
    let r = vstd::set_lib::set_int_range(1, m + 1);
    vstd::set_lib::lemma_int_range(1, m + 1);
    assert forall|x: int| r.contains(x) implies ints.to_set().contains(x) by {
        assert(used.contains(x as u64));
        let i = choose|i: int| 0 <= i < used.len() && used[i] == x as u64;
        assert(ints[i] == x);
        assert(ints.contains(x));
    }
    vstd::set_lib::lemma_len_subset(r, ints.to_set());
    ints.lemma_cardinality_of_set();
}

/// A non-zero value that `used` does not hold: the smallest one.
fn unused_value(used: &Vec<u64>) -> (r: u64)
    requires
        used@.len() < u64::MAX,
    ensures
        r != 0,
        !used@.contains(r),
{
    let mut c: u64 = 1;
    while holds_u64(used, c)
        invariant
            used@.len() < u64::MAX,
            1 <= c <= used@.len() + 1,
            forall|x: u64| 1 <= x < c ==> #[trigger] used@.contains(x),
        decreases used@.len() + 1 - c,
    {
        proof {
            assert forall|x: u64| 1 <= x <= c implies #[trigger] used@.contains(x) by {}
            lemma_pigeon(used@, c as int);
        }
        c = c + 1;
    }
    c
}

/// A fresh track id (time-ordered, random) unless `used` holds it, in
/// which case the smallest non-zero value `used` does not hold.
fn fresh_id_avoiding(used: &Vec<u64>) -> (r: u64)
    requires
        used@.len() < u64::MAX,
    ensures
        r != 0,
        !used@.contains(r),
{
    let drawn = TrackId::next().0;
    if holds_u64(used, drawn) {
        unused_value(used)
    } else {
        drawn
    }
}

/// The ids of `tracks` as numbers.
fn track_id_values(tracks: &Vec<Track>) -> (v: Vec<u64>)
    ensures
        v@.len() == tracks@.len(),
        forall|j: int| 0 <= j < tracks@.len() ==> v@[j] == tracks@[j].id.0,
{
    let mut v: Vec<u64> = Vec::new();
    let mut i: usize = 0;
    while i < tracks.len()
        invariant
            0 <= i <= tracks@.len(),
            v@.len() == i,
            forall|j: int| 0 <= j < i ==> v@[j] == tracks@[j].id.0,
        decreases tracks@.len() - i,
    {
        v.push(tracks[i].id.0);
        i = i + 1;
    }
    v
}

/// Give every track whose id an earlier track has a fresh id that no track
/// has (see [`ids_deduplicated`]).
pub fn dedup_track_ids(tracks: &mut Vec<Track>)
    requires
        old(tracks)@.len() < 0x4000_0000_0000_0000,
    ensures
        ids_deduplicated(old(tracks)@, final(tracks)@),
{
    let ghost pre = tracks@;
    let mut seen: Vec<u64> = Vec::new();
    let mut used: Vec<u64> = track_id_values(tracks);
    let mut i: usize = 0;
    proof {
        assert forall|j: int| 0 <= j < pre.len() implies used@.contains(#[trigger] pre[j].id.0) by {
            assert(used@[j] == pre[j].id.0);
        }
    }
    while i < tracks.len()
        invariant
            pre == old(tracks)@,
            pre.len() < 0x4000_0000_0000_0000,
            tracks@.len() == pre.len(),
            0 <= i <= pre.len(),
            used@.len() <= pre.len() + i,
            forall|j: int| 0 <= j < pre.len() ==> used@.contains(#[trigger] pre[j].id.0),
            forall|j: int| 0 <= j < i ==> used@.contains(#[trigger] tracks@[j].id.0),
            forall|j: int|
                0 <= j < i ==> if id_seen_before(pre, j) {
                    &&& #[trigger] tracks@[j] == (Track { id: tracks@[j].id, ..pre[j] })
                    &&& tracks@[j].id.0 != 0
                    &&& id_unused(pre, tracks@[j].id)
                } else {
                    tracks@[j] == pre[j]
                },
            forall|a: int, b: int| 0 <= a < b < i ==> #[trigger] tracks@[a].id != #[trigger] tracks@[b].id,
            forall|j: int| i <= j < pre.len() ==> #[trigger] tracks@[j] == pre[j],
            forall|x: u64| seen@.contains(x) <==> exists|j: int| 0 <= j < i && #[trigger] pre[j].id.0 == x,
        decreases pre.len() - i,
    {
        let id = tracks[i].id;
        let dup = holds_u64(&seen, id.0);
        proof {
            assert(tracks@[i as int] == pre[i as int]);
            if dup {
                let j = choose|j: int| 0 <= j < i && #[trigger] pre[j].id.0 == id.0;
                assert(pre[j].id == pre[i as int].id);
            } else {
                if id_seen_before(pre, i as int) {
                    let j = choose|j: int| 0 <= j < i && pre[j].id == pre[i as int].id;
                    assert(pre[j].id.0 == id.0);
                    assert(seen@.contains(id.0));
                }
            }
        }
        let ghost old_seen = seen@;
        let ghost old_used = used@;
        let ghost old_tracks = tracks@;
        if dup {
            let fresh = fresh_id_avoiding(&used);
            let mut t = tracks.remove(i);
            t.id = TrackId::from_u64(fresh);
            tracks.insert(i, t);
            used.push(fresh);
            proof {
                assert forall|j: int| 0 <= j < pre.len() implies #[trigger] pre[j].id != tracks@[i as int].id by {
                    assert(old_used.contains(pre[j].id.0));
                }
                assert forall|j: int| 0 <= j < i implies tracks@[j].id != tracks@[i as int].id by {
                    assert(tracks@[j] == old_tracks[j]);
                    assert(old_used.contains(old_tracks[j].id.0));
                }
            }
        } else {
            seen.push(id.0);
            proof {
                assert forall|j: int| 0 <= j < i implies tracks@[j].id != tracks@[i as int].id by {
                    if id_seen_before(pre, j) {
                        assert(pre[i as int].id != tracks@[j].id);
                    } else {
                        assert(tracks@[j] == pre[j]);
                        assert(old_seen.contains(pre[j].id.0));
                    }
                }
            }
        }
        proof {
            assert(pre[i as int].id.0 == id.0);
            assert forall|j: int| 0 <= j < pre.len() implies used@.contains(#[trigger] pre[j].id.0) by {
                assert(old_used.contains(pre[j].id.0));
                let w = choose|w: int| 0 <= w < old_used.len() && old_used[w] == pre[j].id.0;
                assert(used@[w] == old_used[w]);
            }
            assert forall|j: int| 0 <= j < i + 1 implies used@.contains(#[trigger] tracks@[j].id.0) by {
                if j < i {
                    assert(tracks@[j] == old_tracks[j]);
                    assert(old_used.contains(old_tracks[j].id.0));
                    let w = choose|w: int| 0 <= w < old_used.len() && old_used[w] == old_tracks[j].id.0;
                    assert(used@[w] == old_used[w]);
                } else if dup {
                    assert(used@[used@.len() - 1] == tracks@[j].id.0);
                } else {
                    assert(tracks@[j] == pre[j]);
                }
            }
            assert forall|x: u64| seen@.contains(x) <==> exists|j: int| 0 <= j < i + 1 && #[trigger] pre[j].id.0 == x by {
                if dup {
                    assert(seen@ == old_seen);
                } else {
                    assert(seen@ == old_seen.push(id.0));
                    if seen@.contains(x) {
                        let w = choose|w: int| 0 <= w < seen@.len() && seen@[w] == x;
                        if w < old_seen.len() {
                            assert(old_seen[w] == x);
                            assert(old_seen.contains(x));
                        } else {
                            assert(x == id.0);
                        }
                    }
                    if old_seen.contains(x) {
                        let w = choose|w: int| 0 <= w < old_seen.len() && old_seen[w] == x;
                        assert(seen@[w] == x);
                    }
                    if x == id.0 {
                        assert(seen@[old_seen.len() as int] == x);
                    }
                }
                if exists|j: int| 0 <= j < i + 1 && #[trigger] pre[j].id.0 == x {
                    let j = choose|j: int| 0 <= j < i + 1 && #[trigger] pre[j].id.0 == x;
                    if j < i {
                        assert(exists|j: int| 0 <= j < i && #[trigger] pre[j].id.0 == x);
                    } else if dup {
                        let k = choose|k: int| 0 <= k < i && #[trigger] pre[k].id.0 == id.0;
                        assert(pre[k].id.0 == x);
                        assert(exists|j: int| 0 <= j < i && #[trigger] pre[j].id.0 == x);
                    }
                }
            }
            assert forall|a: int, b: int| 0 <= a < b < i + 1 implies #[trigger] tracks@[a].id != #[trigger] tracks@[b].id by {
                if b < i {
                    assert(tracks@[a] == old_tracks[a] && tracks@[b] == old_tracks[b]);
                }
            }
            assert forall|j: int| 0 <= j < i + 1 implies if id_seen_before(pre, j) {
                &&& #[trigger] tracks@[j] == (Track { id: tracks@[j].id, ..pre[j] })
                &&& tracks@[j].id.0 != 0
                &&& id_unused(pre, tracks@[j].id)
            } else {
                tracks@[j] == pre[j]
            } by {
                if j < i {
                    assert(tracks@[j] == old_tracks[j]);
                }
            }
        }
        i = i + 1;
    }
}

/// Whether `a` carries sound.
pub fn asset_has_audio(a: &Asset) -> (b: bool)
    ensures
        b == has_audio(*a),
{
    match a {
        Asset::Video(v) => {
            let from_video = match &v.metadata.video {
                Some(vm) => vm.has_audio,
                None => false,
            };
            from_video || v.metadata.audio.is_some()
        },
        Asset::Audio(_) => true,
        _ => false,
    }
}

/// Whether some audio track holds a clip of asset `id`.
fn audio_clip_exists(tracks: &Vec<Track>, id: AssetId) -> (b: bool)
    ensures
        b == has_audio_clip(tracks@, id),
{
    let mut t: usize = 0;
    while t < tracks.len()
        invariant
            0 <= t <= tracks@.len(),
            forall|i: int, k: int|
                0 <= i < t && tracks@[i].kind == TrackKind::Audio && 0 <= k < tracks@[i].clips@.len()
                    ==> #[trigger] tracks@[i].clips@[k].asset_id != id,
        decreases tracks@.len() - t,
    {
        if tracks[t].kind == TrackKind::Audio {
            let clips = &tracks[t].clips;
            let mut k: usize = 0;
            while k < clips.len()
                invariant
                    0 <= t < tracks@.len(),
                    *clips == tracks@[t as int].clips,
                    tracks@[t as int].kind == TrackKind::Audio,
                    0 <= k <= clips@.len(),
                    forall|j: int| 0 <= j < k ==> #[trigger] clips@[j].asset_id != id,
                decreases clips@.len() - k,
            {
                if clips[k].asset_id == id {
                    assert(tracks@[t as int].clips@[k as int].asset_id == id);
                    return true;
                }
                k = k + 1;
            }
            assert forall|j: int| 0 <= j < tracks@[t as int].clips@.len() implies #[trigger] tracks@[t as int].clips@[j].asset_id
                != id by {
                assert(clips@[j].asset_id != id);
            }
        }
        t = t + 1;
    }
    proof {
        if has_audio_clip(tracks@, id) {
            let (i, k) = choose|i: int, k: int|
                0 <= i < tracks@.len() && tracks@[i].kind == TrackKind::Audio && 0 <= k < tracks@[i].clips@.len()
                    && #[trigger] tracks@[i].clips@[k].asset_id == id;
            assert(tracks@[i].clips@[k].asset_id != id);
        }
    }
    false
}

/// Position of the first clip of `clips` that plays asset `id`.
fn find_asset_clip(clips: &Vec<Clip>, id: AssetId) -> (r: Option<usize>)
    ensures
        r matches Some(k) ==> asset_clip_pos(clips@, id) == Some(k as int) && k < clips@.len(),
        r is None ==> asset_clip_pos(clips@, id) is None,
{
    let mut k: usize = 0;
    while k < clips.len()
        invariant
            0 <= k <= clips@.len(),
            forall|j: int| 0 <= j < k ==> clips@[j].asset_id != id,
        decreases clips@.len() - k,
    {
        if clips[k].asset_id == id {
            proof {
                let w = asset_clip_pos(clips@, id)->0;
                if w < k {
                    assert(clips@[w].asset_id != id);
                }
                if k < w {
                    assert(clips@[k as int].asset_id != id);
                }
            }
            return Some(k);
        }
        k = k + 1;
    }
    None
}

/// Where the video clip of asset `id` sits (see [`video_anchor`]).
fn find_video_anchor(tracks: &Vec<Track>, id: AssetId) -> (r: Option<(i64, Option<u64>)>)
    ensures
        r == video_anchor(tracks@, id),
{
    let mut r: Option<(i64, Option<u64>)> = None;
    let mut t: usize = 0;
    assert(tracks@.take(0) =~= Seq::<Track>::empty());
    while t < tracks.len()
        invariant
            0 <= t <= tracks@.len(),
            r == video_anchor(tracks@.take(t as int), id),
        decreases tracks@.len() - t,
    {
        proof {
            assert(tracks@.take(t + 1).drop_last() =~= tracks@.take(t as int));
            assert(tracks@.take(t + 1).last() == tracks@[t as int]);
        }
        if tracks[t].kind == TrackKind::Video {
            match find_asset_clip(&tracks[t].clips, id) {
                Some(k) => {
                    let c = &tracks[t].clips[k];
                    r = Some((c.timeline_in, c.link_group_id));
                },
                None => {},
            }
        }
        t = t + 1;
    }
    assert(tracks@.take(t as int) =~= tracks@);
    r
}

/// The audio clips owed in `p` (see [`repair_plan`]).
pub fn plan_repairs(p: &Project) -> (r: Vec<AudioRepair>)
    requires
        p.timeline.last_ends_fit(),
    ensures
        r@ == repair_plan(*p),
{
    let assets = &p.assets;
    let mut r: Vec<AudioRepair> = Vec::new();
    let mut i: usize = 0;
    assert(assets@.take(0) =~= Seq::<Asset>::empty());
    while i < assets.len()
        invariant
            0 <= i <= assets@.len(),
            *assets == p.assets,
            p.timeline.last_ends_fit(),
            r@ == plan_over(*p, assets@.take(i as int)),
        decreases assets@.len() - i,
    {
        proof {
            assert(assets@.take(i + 1).drop_last() =~= assets@.take(i as int));
            assert(assets@.take(i + 1).last() == assets@[i as int]);
        }
        let a = &assets[i];
        let id = a.id();
        if asset_has_audio(a) && !audio_clip_exists(&p.timeline.tracks, id) {
            let dur = match a.metadata().duration_frames {
                Some(d) => d,
                None => 300,
            };
            match find_video_anchor(&p.timeline.tracks, id) {
                Some((pos, lg)) => r.push((id, pos, dur, lg)),
                None => {
                    let end = p.timeline.duration();
                    r.push((id, end, dur, None));
                },
            }
        }
        i = i + 1;
    }
    assert(assets@.take(i as int) =~= assets@);
    r
}

/// A timeline without tracks of `kind` has none to filter.
proof fn lemma_kind_filter_none(tracks: Seq<Track>, kind: TrackKind)
    requires
        forall|i: int| 0 <= i < tracks.len() ==> tracks[i].kind != kind,
    ensures
        kind_filter(tracks, kind).len() == 0,
    decreases tracks.len(),
{
    if tracks.len() > 0 {
        lemma_kind_filter_none(tracks.drop_last(), kind);
    }
}

/// Position of the first audio track.
fn find_first_audio(tracks: &Vec<Track>) -> (r: Option<usize>)
    ensures
        r matches Some(a) ==> first_audio_pos(tracks@) == Some(a as int) && a < tracks@.len() && tracks@[a as int].kind
            == TrackKind::Audio,
        r is None ==> first_audio_pos(tracks@) is None,
{
    let mut i: usize = 0;
    while i < tracks.len()
        invariant
            0 <= i <= tracks@.len(),
            forall|j: int| 0 <= j < i ==> tracks@[j].kind != TrackKind::Audio,
        decreases tracks@.len() - i,
    {
        if tracks[i].kind == TrackKind::Audio {
            proof {
                let w = first_audio_pos(tracks@)->0;
                if w < i {
                    assert(tracks@[w].kind != TrackKind::Audio);
                }
                if i < w {
                    assert(tracks@[i as int].kind != TrackKind::Audio);
                }
            }
            return Some(i);
        }
        i = i + 1;
    }
    None
}

/// The label of an added audio clip (see [`audio_label`]).
fn audio_label_of(p: &Project, id: AssetId) -> (s: String)
    ensures
        s@ == audio_label(*p, id),
{
    match p.asset(id) {
        Some(a) => String::from_str(a.filename_stem()),
        None => String::from_str("audio"),
    }
}

/// A new plain clip for an owed audio clip.
fn new_audio_clip(label: String, rep: AudioRepair) -> (c: Clip)
    ensures
        is_new_clip(c, label@, rep.0, rep.1, 0, rep.2, rep.3),
{
    Clip {
        id: ClipId::next(),
        label,
        asset_id: rep.0,
        timeline_in: rep.1,
        source_in: 0,
        source_duration: rep.2,
        transform: Transform::default(),
        blend_mode: BlendMode::default(),
        mask: None,
        fade: None,
        transition: None,
        speed: Rational::new(1, 1),
        speed_curve: Vec::new(),
        reverse: false,
        freeze_frame: None,
        frame_blending: false,
        spatial_conform: None,
        gain_db: None,
        volume_keyframes: None,
        mute_audio: false,
        filters: Vec::new(),
        keyframes: Vec::new(),
        link_group_id: rep.3,
        generator: None,
    }
}

/// Every track keeps its id and kind.
pub open spec fn ids_and_kinds_kept(pre: Seq<Track>, post: Seq<Track>) -> bool {
    &&& post.len() == pre.len()
    &&& forall|i: int| 0 <= i < pre.len() ==> #[trigger] post[i].id == pre[i].id && post[i].kind == pre[i].kind
}

/// Add the owed clips of `plan` to the audio track at `t`, one after the
/// other.
fn apply_repairs(p: &mut Project, plan: &Vec<AudioRepair>, t: usize)
    requires
        t < old(p).timeline.tracks@.len(),
        old(p).timeline.tracks@[t as int].kind == TrackKind::Audio,
        repairs_fit(plan@),
    ensures
        repairs_applied(*old(p), plan@, t as int, *final(p)),
        ids_and_kinds_kept(old(p).timeline.tracks@, final(p).timeline.tracks@),
{
    let ghost pre = *p;
    let ghost mut states: Seq<Project> = seq![pre];
    let mut j: usize = 0;
    while j < plan.len()
        invariant
            0 <= j <= plan@.len(),
            t < p.timeline.tracks@.len(),
            p.timeline.tracks@[t as int].kind == TrackKind::Audio,
            ids_and_kinds_kept(pre.timeline.tracks@, p.timeline.tracks@),
            repairs_fit(plan@),
            states.len() == j + 1,
            states[0] == pre,
            states[j as int] == *p,
            forall|k: int| 0 <= k < j ==> repair_step(#[trigger] states[k], plan@[k], t as int, states[k + 1]),
        decreases plan@.len() - j,
    {
        let rep = plan[j];
        let ghost before = *p;
        if rep.2 > 0 {
            let label = audio_label_of(p, rep.0);
            let clip = new_audio_clip(label, rep);
            let ghost c = clip;
            proof {
                lemma_unit_speed_len(rep.2 as int);
                assert(plan@[j as int].2 > 0);
            }
            let rr = p.timeline.tracks[t].insert_clip(clip);
            let r: Result<(), EngineError> = match rr {
                Ok(()) => Ok(()),
                Err(e) => Err(EngineError::Model(e)),
            };
            proof {
                let tr = before.timeline.tracks@[t as int];
                assert(insert_clip_outcome(tr.id, tr.kind, tr.clips@, c, p.timeline.tracks@[t as int].clips@, rr));
                assert(p.timeline.tracks@ =~= before.timeline.tracks@.update(t as int, p.timeline.tracks@[t as int]));
                assert(inserted_into(before, *p, t as int, c, r));
                assert(repair_step(before, rep, t as int, *p));
                assert forall|i: int| 0 <= i < pre.timeline.tracks@.len() implies #[trigger] p.timeline.tracks@[i].id
                    == pre.timeline.tracks@[i].id && p.timeline.tracks@[i].kind == pre.timeline.tracks@[i].kind by {
                    assert(before.timeline.tracks@[i].id == pre.timeline.tracks@[i].id);
                }
            }
        }
        proof {
            states = states.push(*p);
            assert(states[j as int] == before);
            assert(repair_step(states[j as int], plan@[j as int], t as int, states[j + 1]));
        }
        j = j + 1;
    }
    assert(states[plan@.len() as int] == *p);
}

/// Append the audio track "A1" when there is none; its id is drawn afresh
/// until no track has it (see [`audio_track_ready`]).
fn ready_audio_track(project: &mut Project)
    requires
        ids_distinct(old(project).timeline.tracks@),
        old(project).timeline.tracks@.len() < 0x4000_0000_0000_0000,
    ensures
        audio_track_ready(*old(project), *final(project)),
        ids_distinct(final(project).timeline.tracks@),
{
    let ghost d = *project;
    if find_first_audio(&project.timeline.tracks).is_some() {
        return;
    }
    proof {
        assert forall|i: int| 0 <= i < d.timeline.tracks@.len() implies d.timeline.tracks@[i].kind
            != TrackKind::Audio by {
            if d.timeline.tracks@[i].kind == TrackKind::Audio {
                assert(first_audio_pos(d.timeline.tracks@) is Some);
            }
        }
        lemma_kind_filter_none(d.timeline.tracks@, TrackKind::Audio);
    }
    let used = track_id_values(&project.timeline.tracks);
    project.add_audio_track(String::from_str("A1"));
    let ghost added = *project;
    let drawn = project.timeline.tracks[project.timeline.tracks.len() - 1].id.0;
    if holds_u64(&used, drawn) {
        let fresh = fresh_id_avoiding(&used);
        let mut t = project.timeline.tracks.pop().unwrap();
        t.id = TrackId::from_u64(fresh);
        project.timeline.tracks.push(t);
    }
    proof {
        let n = d.timeline.tracks@.len();
        let ts = project.timeline.tracks@;
        assert(ts.drop_last() =~= d.timeline.tracks@);
        assert forall|j: int| 0 <= j < n implies #[trigger] d.timeline.tracks@[j].id != ts.last().id by {
            assert(used@[j] == d.timeline.tracks@[j].id.0);
        }
        assert forall|a: int, b: int| 0 <= a < b < ts.len() implies #[trigger] ts[a].id != #[trigger] ts[b].id by {
            if b < n {
                assert(ts[a] == d.timeline.tracks@[a]);
                assert(ts[b] == d.timeline.tracks@[b]);
            } else {
                assert(ts[a] == d.timeline.tracks@[a]);
            }
        }
        assert(*project == (Project { timeline: Timeline { tracks: project.timeline.tracks, ..d.timeline }, ..d }));
    }
}

/// Add the owed clips of `plan` to the first audio track, found by its id.
fn add_owed_clips(project: &mut Project, plan: &Vec<AudioRepair>)
    requires
        ids_distinct(old(project).timeline.tracks@),
        repairs_fit(plan@),
    ensures
        audio_repairs_applied(*old(project), plan@, *final(project)),
        ids_distinct(final(project).timeline.tracks@),
{
    let ghost q = *project;
    match find_first_audio(&project.timeline.tracks) {
        Some(a) => {
            let atid = project.timeline.tracks[a].id;
            match find_track(&project.timeline, atid) {
                Some(t) => {
                    proof {
                        if t != a {
                            if t < a {
                                assert(q.timeline.tracks@[t as int].id != q.timeline.tracks@[a as int].id);
                            } else {
                                assert(q.timeline.tracks@[a as int].id != q.timeline.tracks@[t as int].id);
                            }
                        }
                    }
                    apply_repairs(project, plan, t);
                    proof {
                        let ts = project.timeline.tracks@;
                        assert forall|x: int, y: int| 0 <= x < y < ts.len() implies #[trigger] ts[x].id
                            != #[trigger] ts[y].id by {
                            assert(ts[x].id == q.timeline.tracks@[x].id);
                            assert(ts[y].id == q.timeline.tracks@[y].id);
                        }
                    }
                },
                None => {},
            }
        },
        None => {},
    }
}

/// Repair a project loaded from disk (see [`repaired`]); afterwards no two
/// tracks share an id.
pub fn repair_project(project: &mut Project)
    requires
        old(project).timeline.last_ends_fit(),
        old(project).timeline.tracks@.len() < 0x4000_0000_0000_0000,
        repairs_fit(repair_plan(*old(project))),
    ensures
        repaired(*old(project), *final(project)),
        ids_distinct(final(project).timeline.tracks@),
{
    let ghost pre = *project;
    let plan = plan_repairs(project);
    dedup_track_ids(&mut project.timeline.tracks);
    let ghost d = *project;
    assert(d == (Project { timeline: Timeline { tracks: d.timeline.tracks, ..pre.timeline }, ..pre }));
    assert(ids_deduplicated(pre.timeline.tracks@, d.timeline.tracks@));
    if plan.len() == 0 {
        return;
    }
    ready_audio_track(project);
    let ghost q = *project;
    add_owed_clips(project, &plan);
    let ghost m = *project;
    project.timeline.rebuild_index();
    assert(reindexed(m, *project));
    assert(project.timeline.tracks@ == m.timeline.tracks@);
}

/// The owed clips depend on the assets and the tracks only.
pub proof fn lemma_plan_same_tracks(p1: Project, p2: Project, assets: Seq<Asset>)
    requires
        p1.timeline.tracks == p2.timeline.tracks,
    ensures
        plan_over(p1, assets) == plan_over(p2, assets),
    decreases assets.len(),
{
    if assets.len() > 0 {
        lemma_plan_same_tracks(p1, p2, assets.drop_last());
        assert(repair_of(p1, assets.last()) == repair_of(p2, assets.last()));
    }
}

/// Whether every owed clip of positive duration ends at a frame that fits
/// in `i64` (see [`repairs_fit`]).
pub fn repairs_fit_check(plan: &Vec<AudioRepair>) -> (b: bool)
    ensures
        b == repairs_fit(plan@),
{
    let mut j: usize = 0;
    while j < plan.len()
        invariant
            0 <= j <= plan@.len(),
            forall|k: int| 0 <= k < j && #[trigger] plan@[k].2 > 0 ==> plan@[k].1 + plan@[k].2 <= i64::MAX,
        decreases plan@.len() - j,
    {
        let r = plan[j];
        if r.2 > 0 && r.1.checked_add(r.2).is_none() {
            assert(plan@[j as int].2 > 0);
            return false;
        }
        j = j + 1;
    }
    true
}

} // verus!
