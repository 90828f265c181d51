//! Frame resolution: which clips show at a timeline frame, and which source
//! frame each of them shows.  Fetching the decoded pictures is up to the
//! caller.

use vstd::prelude::*;
use crate::clip::{Clip, source_offset};
use crate::num::scaled_round_exec;
use crate::timeline::{Timeline, last_end_fits};
use crate::ids::{AssetId, ClipId, TrackId};
use crate::project::Project;
use crate::track::{Track, clips_measurable};

verus! {

/// One layer of a frame: the track and clip it comes from, the clip's
/// asset, and the source frame the clip shows there.
#[derive(Debug, Clone, Copy, PartialEq, Eq)]
pub struct LayerSource {
    pub track: TrackId,
    pub clip: ClipId,
    pub asset: AssetId,
    pub source_frame: i64,
}

/// Clip `c` covers timeline frame `frame`.
pub open spec fn shows(c: Clip, frame: i64) -> bool {
    c.timeline_in <= frame < c.end()
}

/// The source frame `c` shows at timeline frame `frame`.
pub open spec fn source_frame_of(c: Clip, frame: i64) -> int {
    c.source_in + source_offset(frame - c.timeline_in, c.speed)
}

/// The layers the clips of `clips` (on track `tid`) give at `frame`, in
/// clip order.
pub open spec fn clip_layers(tid: TrackId, clips: Seq<Clip>, frame: i64) -> Seq<LayerSource>
    decreases clips.len(),
{
    if clips.len() == 0 {
        Seq::empty()
    } else {
        let prev = clip_layers(tid, clips.drop_last(), frame);
        let c = clips.last();
        if shows(c, frame) {
            prev.push(
                LayerSource {
                    track: tid,
                    clip: c.id,
                    asset: c.asset_id,
                    source_frame: source_frame_of(c, frame) as i64,
                },
            )
        } else {
            prev
        }
    }
}

/// The layer stack at `frame`, back to front: the visible tracks in order,
/// each giving the clips that cover the frame.
pub open spec fn frame_layers(tracks: Seq<Track>, frame: i64) -> Seq<LayerSource>
    decreases tracks.len(),
{
    if tracks.len() == 0 {
        Seq::empty()
    } else {
        let t = tracks.last();
        frame_layers(tracks.drop_last(), frame) + if t.visible {
            clip_layers(t.id, t.clips@, frame)
        } else {
            Seq::empty()
        }
    }
}

/// `l` is the layer clip `c` of track `tid` gives at `frame`: the clip
/// covers the frame, and the layer names the track, the clip and its asset
/// and shows the source frame `Clip::timeline_to_source` computes there
/// (the clip's source start plus the offset into it scaled by its speed).
pub open spec fn layer_from(l: LayerSource, tid: TrackId, c: Clip, frame: i64) -> bool {
    &&& c.timeline_in <= frame < c.end()
    &&& l.track == tid && l.clip == c.id && l.asset == c.asset_id
    &&& l.source_frame == c.source_in + source_offset(frame - c.timeline_in, c.speed)
}

/// Each layer of a track's clips at `frame` comes from one of those clips.
proof fn lemma_clip_layers_sound(tid: TrackId, clips: Seq<Clip>, frame: i64, i: int)
    requires
        0 <= i < clip_layers(tid, clips, frame).len(),
        forall|k: int|
            0 <= k < clips.len() && shows(clips[k], frame) ==> i64::MIN <= #[trigger] source_frame_of(clips[k], frame)
                <= i64::MAX,
    ensures
        exists|k: int| 0 <= k < clips.len() && #[trigger] layer_from(clip_layers(tid, clips, frame)[i], tid, clips[k], frame),
    decreases clips.len(),
{
    let prev = clips.drop_last();
    let c = clips.last();
    assert forall|k: int|
        0 <= k < prev.len() && shows(prev[k], frame) implies i64::MIN <= #[trigger] source_frame_of(prev[k], frame)
            <= i64::MAX by {
        assert(prev[k] == clips[k]);
    }
    if i < clip_layers(tid, prev, frame).len() {
        lemma_clip_layers_sound(tid, prev, frame, i);
        let k = choose|k: int| 0 <= k < prev.len() && #[trigger] layer_from(clip_layers(tid, prev, frame)[i], tid, prev[k], frame);
        assert(prev[k] == clips[k]);
        assert(layer_from(clip_layers(tid, clips, frame)[i], tid, clips[k], frame));
    } else {
        assert(shows(c, frame));
        assert(shows(clips[clips.len() - 1], frame));
        assert(layer_from(clip_layers(tid, clips, frame)[i], tid, clips[clips.len() - 1], frame));
    }
}

/// Each clip of a track that covers `frame` gives a layer there.
proof fn lemma_clip_layers_complete(tid: TrackId, clips: Seq<Clip>, frame: i64, k: int)
    requires
        0 <= k < clips.len(),
        clips[k].timeline_in <= frame < clips[k].end(),
        i64::MIN <= source_frame_of(clips[k], frame) <= i64::MAX,
    ensures
        exists|i: int|
            0 <= i < clip_layers(tid, clips, frame).len() && #[trigger] layer_from(
                clip_layers(tid, clips, frame)[i],
                tid,
                clips[k],
                frame,
            ),
    decreases clips.len(),
{
    let prev = clips.drop_last();
    let n: int = clip_layers(tid, prev, frame).len() as int;
    if k < prev.len() {
        assert(prev[k] == clips[k]);
        lemma_clip_layers_complete(tid, prev, frame, k);
        let i = choose|i: int| 0 <= i < n && #[trigger] layer_from(clip_layers(tid, prev, frame)[i], tid, prev[k], frame);
        assert(clip_layers(tid, clips, frame)[i] == clip_layers(tid, prev, frame)[i]);
        assert(layer_from(clip_layers(tid, clips, frame)[i], tid, clips[k], frame));
    } else {
        assert(clip_layers(tid, clips, frame)[n] == (LayerSource {
            track: tid,
            clip: clips[k].id,
            asset: clips[k].asset_id,
            source_frame: source_frame_of(clips[k], frame) as i64,
        }));
        assert(layer_from(clip_layers(tid, clips, frame)[n], tid, clips[k], frame));
    }
}

/// The tracks before the last keep their source frames in range.
proof fn lemma_sources_fit_prefix(tracks: Seq<Track>, frame: i64)
    requires
        tracks.len() > 0,
        sources_fit(tracks, frame),
    ensures
        sources_fit(tracks.drop_last(), frame),
{
    let prev = tracks.drop_last();
    assert forall|t: int, k: int|
        0 <= t < prev.len() && prev[t].visible && 0 <= k < prev[t].clips@.len() && shows(prev[t].clips@[k], frame)
            implies i64::MIN <= #[trigger] source_frame_of(prev[t].clips@[k], frame) <= i64::MAX by {
        assert(prev[t] == tracks[t]);
    }
}

/// Every layer of the stack at `frame` comes from a clip of a visible track
/// that covers the frame: it names that track, the clip and its asset, and
/// shows the source frame `Clip::timeline_to_source` gives there (the
/// clip's source start plus the offset into it scaled by its speed).
pub proof fn lemma_frame_layer_sound(tracks: Seq<Track>, frame: i64, i: int)
    requires
        sources_fit(tracks, frame),
        0 <= i < frame_layers(tracks, frame).len(),
    ensures
        exists|t: int, k: int|
            0 <= t < tracks.len() && tracks[t].visible && 0 <= k < tracks[t].clips@.len() && #[trigger] layer_from(
                frame_layers(tracks, frame)[i],
                tracks[t].id,
                tracks[t].clips@[k],
                frame,
            ),
    decreases tracks.len(),
{
    let prev = tracks.drop_last();
    let last = tracks.last();
    let lt = tracks.len() - 1;
    let base = frame_layers(prev, frame);
    let own = if last.visible {
        clip_layers(last.id, last.clips@, frame)
    } else {
        Seq::empty()
    };
    assert(frame_layers(tracks, frame) == base + own);
    if i < base.len() {
        lemma_sources_fit_prefix(tracks, frame);
        lemma_frame_layer_sound(prev, frame, i);
        let (t, k) = choose|t: int, k: int|
            0 <= t < prev.len() && prev[t].visible && 0 <= k < prev[t].clips@.len() && #[trigger] layer_from(
                base[i],
                prev[t].id,
                prev[t].clips@[k],
                frame,
            );
        assert(prev[t] == tracks[t]);
        assert(layer_from(frame_layers(tracks, frame)[i], tracks[t].id, tracks[t].clips@[k], frame));
    } else {
        assert(tracks[lt] == last);
        assert forall|k: int|
            0 <= k < last.clips@.len() && shows(last.clips@[k], frame) implies i64::MIN
                <= #[trigger] source_frame_of(last.clips@[k], frame) <= i64::MAX by {
            assert(tracks[lt].clips@[k] == last.clips@[k]);
        }
        lemma_clip_layers_sound(last.id, last.clips@, frame, i - base.len());
        let k = choose|k: int|
            0 <= k < last.clips@.len() && #[trigger] layer_from(own[i - base.len()], last.id, last.clips@[k], frame);
        assert(layer_from(frame_layers(tracks, frame)[i], tracks[lt].id, tracks[lt].clips@[k], frame));
    }
}

/// Every clip of a visible track that covers `frame` gives a layer of the
/// stack there, with the source frame `Clip::timeline_to_source` gives.
pub proof fn lemma_frame_layer_complete(tracks: Seq<Track>, frame: i64, t: int, k: int)
    requires
        sources_fit(tracks, frame),
        0 <= t < tracks.len(),
        tracks[t].visible,
        0 <= k < tracks[t].clips@.len(),
        tracks[t].clips@[k].timeline_in <= frame < tracks[t].clips@[k].end(),
    ensures
        exists|i: int|
            0 <= i < frame_layers(tracks, frame).len() && #[trigger] layer_from(
                frame_layers(tracks, frame)[i],
                tracks[t].id,
                tracks[t].clips@[k],
                frame,
            ),
    decreases tracks.len(),
{
    let prev = tracks.drop_last();
    let last = tracks.last();
    let base = frame_layers(prev, frame);
    let own = if last.visible {
        clip_layers(last.id, last.clips@, frame)
    } else {
        Seq::empty()
    };
    assert(frame_layers(tracks, frame) == base + own);
    if t < prev.len() {
        assert(prev[t] == tracks[t]);
        lemma_sources_fit_prefix(tracks, frame);
        lemma_frame_layer_complete(prev, frame, t, k);
        let i = choose|i: int| 0 <= i < base.len() && #[trigger] layer_from(base[i], prev[t].id, prev[t].clips@[k], frame);
        assert(frame_layers(tracks, frame)[i] == base[i]);
        assert(layer_from(frame_layers(tracks, frame)[i], tracks[t].id, tracks[t].clips@[k], frame));
    } else {
        assert(tracks[t] == last);
        assert(shows(tracks[t].clips@[k], frame));
        assert(i64::MIN <= source_frame_of(last.clips@[k], frame) <= i64::MAX);
        lemma_clip_layers_complete(last.id, last.clips@, frame, k);
        let i = choose|i: int| 0 <= i < own.len() && #[trigger] layer_from(own[i], last.id, last.clips@[k], frame);
        assert(frame_layers(tracks, frame)[base.len() + i] == own[i]);
        assert(layer_from(frame_layers(tracks, frame)[base.len() + i], tracks[t].id, tracks[t].clips@[k], frame));
    }
}

/// The clips of `clips` that cover `frame`, in order.
pub open spec fn covering_clips(clips: Seq<Clip>, frame: i64) -> Seq<Clip> {
    clips.filter(|c: Clip| c.timeline_in <= frame < c.end())
}

/// How many clips of visible tracks cover `frame`.
pub open spec fn covering_count(tracks: Seq<Track>, frame: i64) -> nat
    decreases tracks.len(),
{
    if tracks.len() == 0 {
        0
    } else {
        covering_count(tracks.drop_last(), frame) + if tracks.last().visible {
            covering_clips(tracks.last().clips@, frame).len()
        } else {
            0
        }
    }
}

proof fn lemma_clip_layers_len(tid: TrackId, clips: Seq<Clip>, frame: i64)
    ensures
        clip_layers(tid, clips, frame).len() == covering_clips(clips, frame).len(),
    decreases clips.len(),
{
    reveal(Seq::filter);
    if clips.len() > 0 {
        lemma_clip_layers_len(tid, clips.drop_last(), frame);
    }
}

/// The layer stack at `frame` has one layer per clip of a visible track
/// covering the frame: no clip is shown twice and none is left out.
pub proof fn lemma_frame_layer_count(tracks: Seq<Track>, frame: i64)
    ensures
        frame_layers(tracks, frame).len() == covering_count(tracks, frame),
    decreases tracks.len(),
{
    if tracks.len() > 0 {
        lemma_frame_layer_count(tracks.drop_last(), frame);
        let last = tracks.last();
        lemma_clip_layers_len(last.id, last.clips@, frame);
    }
}

/// Every source frame a visible track shows at `frame` fits in `i64`.
pub open spec fn sources_fit(tracks: Seq<Track>, frame: i64) -> bool {
    forall|t: int, k: int|
        0 <= t < tracks.len() && tracks[t].visible && 0 <= k < tracks[t].clips@.len() && shows(
            tracks[t].clips@[k],
            frame,
        ) ==> i64::MIN <= #[trigger] source_frame_of(tracks[t].clips@[k], frame) <= i64::MAX
}

/// The layer stack of `project` at `frame` (see [`frame_layers`]).
pub fn layers_at(project: &Project, frame: i64) -> (r: Vec<LayerSource>)
    requires
        project.timeline.measurable(),
        sources_fit(project.timeline.tracks@, frame),
    ensures
        r@ == frame_layers(project.timeline.tracks@, frame),
{
    let tracks = &project.timeline.tracks;
    let mut layers: Vec<LayerSource> = Vec::new();
    let mut i: usize = 0;
    assert(tracks@.take(0) =~= Seq::<Track>::empty());
    while i < tracks.len()
        invariant
            0 <= i <= tracks@.len(),
            *tracks == project.timeline.tracks,
            project.timeline.measurable(),
            sources_fit(tracks@, frame),
            layers@ == frame_layers(tracks@.take(i as int), frame),
        decreases tracks@.len() - i,
    {
        proof {
            assert(tracks@.take(i + 1).drop_last() =~= tracks@.take(i as int));
            assert(tracks@.take(i + 1).last() == tracks@[i as int]);
        }
        let track = &tracks[i];
        if track.visible {
            let ghost base = layers@;
            let clips = &track.clips;
            proof {
                assert(clips_measurable(clips@));
                assert(clips@.take(0) =~= Seq::<Clip>::empty());
                assert(base + clip_layers(track.id, clips@.take(0), frame) =~= base);
            }
            let mut k: usize = 0;
            while k < clips.len()
                invariant
                    0 <= i < tracks@.len(),
                    *track == tracks@[i as int],
                    track.visible,
                    *clips == track.clips,
                    0 <= k <= clips@.len(),
                    clips_measurable(clips@),
                    sources_fit(tracks@, frame),
                    layers@ == base + clip_layers(track.id, clips@.take(k as int), frame),
                decreases clips@.len() - k,
            {
                proof {
                    assert(clips@.take(k + 1).drop_last() =~= clips@.take(k as int));
                    assert(clips@.take(k + 1).last() == clips@[k as int]);
                    assert(clips@[k as int].end_fits() && clips@[k as int].dur() >= 0);
                    if shows(clips@[k as int], frame) {
                        assert(tracks@[i as int].clips@[k as int] == clips@[k as int]);
                        assert(i64::MIN <= source_frame_of(tracks@[i as int].clips@[k as int], frame) <= i64::MAX);
                    }
                }
                let c = &clips[k];
                if c.covers(frame) {
                    match c.timeline_to_source(frame) {
                        Some(source_frame) => {
                            layers.push(LayerSource { track: track.id, clip: c.id, asset: c.asset_id, source_frame });
                            assert(layers@ =~= base + clip_layers(track.id, clips@.take(k + 1), frame));
                        },
                        None => {},
                    }
                }
                k = k + 1;
            }
            assert(clips@.take(k as int) =~= clips@);
        } else {
            assert(layers@ =~= frame_layers(tracks@.take(i as int), frame) + Seq::<LayerSource>::empty());
        }
        i = i + 1;
    }
    assert(tracks@.take(i as int) =~= tracks@);
    layers
}

/// Whether every clip of `clips` has a non-negative duration and an end
/// frame that fits in `i64`.
pub fn clips_are_measurable(clips: &Vec<Clip>) -> (b: bool)
    ensures
        b == clips_measurable(clips@),
{
    let mut k: usize = 0;
    while k < clips.len()
        invariant
            0 <= k <= clips@.len(),
            clips_measurable(clips@.take(k as int)),
        decreases clips@.len() - k,
    {
        let c = &clips[k];
        let d = c.duration();
        if d < 0 || c.timeline_in.checked_add(d).is_none() {
            proof {
                assert(!(clips@[k as int].end_fits() && clips@[k as int].dur() >= 0));
                assert(!clips_measurable(clips@)) by {
                    if clips_measurable(clips@) {
                        assert(clips@[k as int].end_fits());
                        assert(clips@[k as int].dur() >= 0);
                    }
                }
            }
            return false;
        }
        proof {
            let t = clips@.take(k + 1);
            assert forall|j: int| 0 <= j < t.len() implies #[trigger] t[j].end_fits() && t[j].dur() >= 0 by {
                if j < k {
                    assert(t[j] == clips@.take(k as int)[j]);
                    assert(clips@.take(k as int)[j].end_fits());
                } else {
                    assert(t[j] == clips@[k as int]);
                }
            }
        }
        k = k + 1;
    }
    assert(clips@.take(k as int) =~= clips@);
    true
}

/// Whether every clip of the timeline is measurable (see
/// [`Timeline::measurable`]).
pub fn timeline_is_measurable(t: &Timeline) -> (b: bool)
    ensures
        b == t.measurable(),
{
    let mut i: usize = 0;
    while i < t.tracks.len()
        invariant
            0 <= i <= t.tracks@.len(),
            forall|j: int| 0 <= j < i ==> #[trigger] clips_measurable(t.tracks@[j].clips@),
        decreases t.tracks@.len() - i,
    {
        if !clips_are_measurable(&t.tracks[i].clips) {
            assert(!clips_measurable(t.tracks@[i as int].clips@));
            return false;
        }
        i = i + 1;
    }
    true
}

/// Whether the end of the last clip of every track fits in `i64` (see
/// [`Timeline::last_ends_fit`]), which is all the duration reads.
pub fn last_ends_in_range(t: &Timeline) -> (b: bool)
    ensures
        b == t.last_ends_fit(),
{
    let mut i: usize = 0;
    while i < t.tracks.len()
        invariant
            0 <= i <= t.tracks@.len(),
            forall|j: int| 0 <= j < i ==> #[trigger] last_end_fits(t.tracks@[j]),
        decreases t.tracks@.len() - i,
    {
        let clips = &t.tracks[i].clips;
        if clips.len() > 0 {
            let c = &clips[clips.len() - 1];
            let d = c.duration();
            if c.timeline_in.checked_add(d).is_none() {
                assert(!last_end_fits(t.tracks@[i as int]));
                return false;
            }
        }
        i = i + 1;
    }
    true
}

/// Whether every source frame a visible track shows at `frame` fits in
/// `i64` (see [`sources_fit`]).
pub fn sources_fit_at(project: &Project, frame: i64) -> (b: bool)
    requires
        project.timeline.measurable(),
    ensures
        b == sources_fit(project.timeline.tracks@, frame),
{
    let tracks = &project.timeline.tracks;
    let mut i: usize = 0;
    while i < tracks.len()
        invariant
            0 <= i <= tracks@.len(),
            *tracks == project.timeline.tracks,
            project.timeline.measurable(),
            forall|t: int, k: int|
                0 <= t < i && tracks@[t].visible && 0 <= k < tracks@[t].clips@.len() && shows(
                    tracks@[t].clips@[k],
                    frame,
                ) ==> i64::MIN <= #[trigger] source_frame_of(tracks@[t].clips@[k], frame) <= i64::MAX,
        decreases tracks@.len() - i,
    {
        if tracks[i].visible {
            let clips = &tracks[i].clips;
            assert(clips_measurable(clips@));
            let mut k: usize = 0;
            while k < clips.len()
                invariant
                    0 <= i < tracks@.len(),
                    *clips == tracks@[i as int].clips,
                    *tracks == project.timeline.tracks,
                    tracks@[i as int].visible,
                    clips_measurable(clips@),
                    0 <= k <= clips@.len(),
                    forall|j: int|
                        0 <= j < k && shows(#[trigger] clips@[j], frame) ==> i64::MIN <= source_frame_of(
                            clips@[j],
                            frame,
                        ) <= i64::MAX,
                decreases clips@.len() - k,
            {
                let c = &clips[k];
                assert(0 <= k < clips@.len());
                assert(clips_measurable(clips@));
                assert(clips@[k as int].end_fits());
                assert(clips@[k as int].dur() >= 0);
                if c.covers(frame) {
                    let offset = frame - c.timeline_in;
                    let so = scaled_round_exec(offset, c.speed.num, c.speed.den);
                    if c.source_in.checked_add(so).is_none() {
                        assert(so == source_offset(frame - c.timeline_in, c.speed));
                        proof {
                            let ck = tracks@[i as int].clips@[k as int];
                            assert(ck == clips@[k as int]);
                            assert(shows(ck, frame));
                            assert(tracks@[i as int].visible);
                            assert(!(i64::MIN <= source_frame_of(ck, frame) <= i64::MAX));
                            assert(!sources_fit(tracks@, frame)) by {
                                if sources_fit(tracks@, frame) {
                                    assert(i64::MIN <= source_frame_of(tracks@[i as int].clips@[k as int], frame)
                                        <= i64::MAX);
                                }
                            }
                        }
                        return false;
                    }
                }
                k = k + 1;
            }
            assert forall|k2: int|
                0 <= k2 < tracks@[i as int].clips@.len() && shows(tracks@[i as int].clips@[k2], frame) implies i64::MIN
                <= #[trigger] source_frame_of(tracks@[i as int].clips@[k2], frame) <= i64::MAX by {
                assert(clips@[k2] == tracks@[i as int].clips@[k2]);
            }
        }
        i = i + 1;
    }
    true
}

} // verus!
