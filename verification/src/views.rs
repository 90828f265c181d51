//! Read-only views of the project handed to agents and the UI.

use vstd::prelude::*;
use vstd::string::StringExecFns;
use crate::asset::Asset;
use crate::canvas::Canvas;
use crate::clip::Clip;
use crate::copy::{copy_vec, same_effects, same_seq};
use crate::effect::EffectInstance;
use crate::ids::{ClipId, ProjectId, TrackId};
use crate::marker::Marker;
use crate::num::F32Bits;
use crate::project::{Project, asset_pos};
use crate::text::{decimal, decimal_string};
use crate::time::Rational;
use crate::timeline::{ends_max, kind_filter, lemma_measurable_last_ends};
use crate::track::{Track, TrackKind};

verus! {

/// The clips sharing one link group.
#[derive(Debug, Clone)]
pub struct LinkGroupView {
    pub group_id: u64,
    pub clip_ids: Vec<String>,
}

/// A clip as seen from outside, with media metadata inlined.
#[derive(Debug, Clone)]
pub struct TrackClipView {
    pub clip_id: ClipId,
    pub label: String,
    pub file_path: String,
    pub timeline_in_frames: i64,
    pub duration_frames: i64,
    pub source_in_frames: i64,
    pub media_duration_frames: i64,
    pub track_id: TrackId,
    pub link_group_id: Option<u64>,
    /// Playback speed.
    pub speed: Rational,
    pub filters: Vec<EffectInstance>,
}

/// A track as seen from outside.
#[derive(Debug, Clone)]
pub struct TrackSnapshot {
    pub id: TrackId,
    pub index: usize,
    pub name: String,
    pub kind: TrackKind,
    pub visible: bool,
    pub locked: bool,
    pub muted: bool,
    pub solo: bool,
    pub clips: Vec<TrackClipView>,
}

/// The whole project as handed to agents: clips carry their media data
/// inline so that no second request is needed.
#[derive(Debug, Clone)]
pub struct ProjectSnapshot {
    pub project_id: ProjectId,
    pub name: String,
    pub canvas: Canvas,
    pub fps: Rational,
    pub sample_rate: u32,
    pub duration_frames: i64,
    pub tracks: Vec<TrackSnapshot>,
    pub markers: Vec<Marker>,
    pub assets: Vec<Asset>,
    /// Where proxies live; filled in by the session.
    pub proxy_dir: String,
}

/// The path of asset `id`, or nothing for an unknown asset.
pub open spec fn asset_path_of(assets: Seq<Asset>, id: crate::ids::AssetId) -> Seq<char> {
    match asset_pos(assets, id) {
        Some(i) => assets[i].spec_path(),
        None => Seq::empty(),
    }
}

/// The media length of asset `id`: its duration when known, else 0.
pub open spec fn media_duration_of(assets: Seq<Asset>, id: crate::ids::AssetId) -> i64 {
    match asset_pos(assets, id) {
        Some(i) => match assets[i].meta().duration_frames {
            Some(d) => d,
            None => 0,
        },
        None => 0,
    }
}

/// `v` shows clip `c` of track `tid`.
pub open spec fn views_clip(v: TrackClipView, c: Clip, tid: TrackId, assets: Seq<Asset>) -> bool {
    &&& v.clip_id == c.id && v.label@ == c.label@ && v.file_path@ == asset_path_of(assets, c.asset_id)
    &&& v.timeline_in_frames == c.timeline_in && v.duration_frames == c.dur()
    &&& v.source_in_frames == c.source_in && v.media_duration_frames == media_duration_of(assets, c.asset_id)
    &&& v.track_id == tid && v.link_group_id == c.link_group_id && v.speed == c.speed
    &&& same_effects(c.filters@, v.filters@)
}

/// Every clip of `tracks` with its track's id, track by track.
pub open spec fn flat_clips(tracks: Seq<Track>) -> Seq<(TrackId, Clip)>
    decreases tracks.len(),
{
    if tracks.len() == 0 {
        Seq::empty()
    } else {
        let t = tracks.last();
        flat_clips(tracks.drop_last()) + t.clips@.map_values(|c: Clip| (t.id, c))
    }
}

/// `vs` shows every clip of `tracks`, in order.
pub open spec fn views_all(vs: Seq<TrackClipView>, tracks: Seq<Track>, assets: Seq<Asset>) -> bool {
    let f = flat_clips(tracks);
    vs.len() == f.len() && forall|i: int| 0 <= i < vs.len() ==> #[trigger] views_clip(vs[i], f[i].1, f[i].0, assets)
}

/// `s` is the snapshot of track `t` listing the clips `clips`.
pub open spec fn track_snapshot_of(s: TrackSnapshot, t: Track, clips: Seq<TrackClipView>) -> bool {
    &&& s.id == t.id && s.index == t.index && s.name == t.name && s.kind == t.kind
    &&& s.visible == t.visible && s.locked == t.locked && s.muted == t.muted && s.solo == t.solo
    &&& s.clips@ == clips
}

/// `vs` shows the clips of track `t`, in order.
pub open spec fn views_track(vs: Seq<TrackClipView>, t: Track, assets: Seq<Asset>) -> bool {
    vs.len() == t.clips@.len() && forall|j: int| 0 <= j < vs.len() ==> #[trigger] views_clip(vs[j], t.clips@[j], t.id, assets)
}

/// `s` is the snapshot of `p`: the project's fields, the duration of its
/// timeline, copies of its markers and assets, and for every track a
/// snapshot listing the views of that track's own clips, in order.
pub open spec fn project_snapshot_of(s: ProjectSnapshot, p: Project) -> bool {
    &&& s.project_id == p.id && s.name == p.name && s.canvas == p.canvas && s.fps == p.frame_rate
    &&& s.sample_rate == p.sample_rate
    &&& s.duration_frames == (match ends_max(p.timeline.tracks@) {
        Some(m) => m,
        None => 0,
    })
    &&& s.tracks@.len() == p.timeline.tracks@.len()
    &&& forall|i: int|
        0 <= i < s.tracks@.len() ==> track_snapshot_of(#[trigger] s.tracks@[i], p.timeline.tracks@[i], s.tracks@[i].clips@)
            && views_track(s.tracks@[i].clips@, p.timeline.tracks@[i], p.assets@)
    &&& same_seq(p.timeline.markers@, s.markers@)
    &&& same_seq(p.assets@, s.assets@)
    &&& s.proxy_dir@.len() == 0
}

impl Track {
    /// The snapshot of this track listing `clips`.
    pub fn to_snapshot(&self, clips: Vec<TrackClipView>) -> (s: TrackSnapshot)
        ensures
            track_snapshot_of(s, *self, clips@),
    {
        TrackSnapshot {
            id: self.id,
            index: self.index,
            name: self.name.clone(),
            kind: self.kind,
            visible: self.visible,
            locked: self.locked,
            muted: self.muted,
            solo: self.solo,
            clips,
        }
    }
}

/// The view of clip `c` of track `tid` in `p`.
fn clip_view(p: &Project, tid: TrackId, c: &Clip) -> (v: TrackClipView)
    ensures
        views_clip(v, *c, tid, p.assets@),
{
    let asset = p.asset(c.asset_id);
    let file_path = match asset {
        Some(a) => String::from_str(a.path()),
        None => String::new(),
    };
    let media_duration_frames = match asset {
        Some(a) => match a.metadata().duration_frames {
            Some(d) => d,
            None => 0,
        },
        None => 0,
    };
    TrackClipView {
        clip_id: c.id,
        label: c.label.clone(),
        file_path,
        timeline_in_frames: c.timeline_in,
        duration_frames: c.duration(),
        source_in_frames: c.source_in,
        media_duration_frames,
        track_id: tid,
        link_group_id: c.link_group_id,
        speed: c.speed,
        filters: copy_vec(&c.filters),
    }
}

/// The views of the clips of track `t` of `p`, in order.
pub fn track_clip_views(p: &Project, t: &Track) -> (r: Vec<TrackClipView>)
    ensures
        views_track(r@, *t, p.assets@),
{
    let mut r: Vec<TrackClipView> = Vec::new();
    let mut k: usize = 0;
    while k < t.clips.len()
        invariant
            0 <= k <= t.clips@.len(),
            r@.len() == k,
            forall|j: int| 0 <= j < k ==> #[trigger] views_clip(r@[j], t.clips@[j], t.id, p.assets@),
        decreases t.clips@.len() - k,
    {
        let v = clip_view(p, t.id, &t.clips[k]);
        r.push(v);
        k = k + 1;
    }
    r
}

/// The views of every clip of `p`, track by track.
pub fn all_clip_views(p: &Project) -> (r: Vec<TrackClipView>)
    ensures
        views_all(r@, p.timeline.tracks@, p.assets@),
{
    let tracks = &p.timeline.tracks;
    let mut r: Vec<TrackClipView> = Vec::new();
    let mut i: usize = 0;
    assert(tracks@.take(0) =~= Seq::<Track>::empty());
    while i < tracks.len()
        invariant
            0 <= i <= tracks@.len(),
            *tracks == p.timeline.tracks,
            views_all(r@, tracks@.take(i as int), p.assets@),
        decreases tracks@.len() - i,
    {
        let t = &tracks[i];
        let ghost base = r@;
        let ghost prefix = flat_clips(tracks@.take(i as int));
        let ghost own = t.clips@.map_values(|c: Clip| (t.id, c));
        let mut k: usize = 0;
        while k < t.clips.len()
            invariant
                0 <= k <= t.clips@.len(),
                *t == tracks@[i as int],
                own == t.clips@.map_values(|c: Clip| (t.id, c)),
                prefix.len() == base.len(),
                forall|j: int| 0 <= j < base.len() ==> #[trigger] views_clip(base[j], prefix[j].1, prefix[j].0, p.assets@),
                r@.len() == base.len() + k,
                forall|j: int| 0 <= j < base.len() ==> r@[j] == base[j],
                forall|j: int|
                    0 <= j < k ==> #[trigger] views_clip(r@[base.len() + j], own[j].1, own[j].0, p.assets@),
            decreases t.clips@.len() - k,
        {
            let v = clip_view(p, t.id, &t.clips[k]);
            r.push(v);
            k = k + 1;
        }
        proof {
            assert(tracks@.take(i + 1).drop_last() =~= tracks@.take(i as int));
            assert(tracks@.take(i + 1).last() == tracks@[i as int]);
            let f = flat_clips(tracks@.take(i + 1));
            assert(f == prefix + own);
            assert forall|j: int| 0 <= j < r@.len() implies #[trigger] views_clip(r@[j], f[j].1, f[j].0, p.assets@) by {
                if j < base.len() {
                    assert(r@[j] == base[j]);
                    assert(f[j] == prefix[j]);
                } else {
                    assert(f[j] == own[j - base.len()]);
                    assert(views_clip(r@[base.len() + (j - base.len())], own[j - base.len()].1, own[j - base.len()].0, p.assets@));
                }
            }
        }
        i = i + 1;
    }
    assert(tracks@.take(i as int) =~= tracks@);
    r
}

impl Project {
    /// The snapshot of the project handed to agents (see
    /// [`project_snapshot_of`]).
    pub fn to_snapshot(&self) -> (s: ProjectSnapshot)
        requires
            self.timeline.measurable(),
        ensures
            project_snapshot_of(s, *self),
    {
        let tracks = &self.timeline.tracks;
        let mut snaps: Vec<TrackSnapshot> = Vec::new();
        let mut i: usize = 0;
        while i < tracks.len()
            invariant
                0 <= i <= tracks@.len(),
                *tracks == self.timeline.tracks,
                snaps@.len() == i,
                forall|j: int|
                    0 <= j < i ==> track_snapshot_of(#[trigger] snaps@[j], tracks@[j], snaps@[j].clips@) && views_track(
                        snaps@[j].clips@,
                        tracks@[j],
                        self.assets@,
                    ),
            decreases tracks@.len() - i,
        {
            let views = track_clip_views(self, &tracks[i]);
            let s = tracks[i].to_snapshot(views);
            snaps.push(s);
            i = i + 1;
        }
        proof {
            lemma_measurable_last_ends(self.timeline);
        }
        ProjectSnapshot {
            project_id: self.id,
            name: self.name.clone(),
            canvas: self.canvas,
            fps: self.frame_rate,
            sample_rate: self.sample_rate,
            duration_frames: self.timeline.duration(),
            tracks: snaps,
            markers: copy_vec(&self.timeline.markers),
            assets: copy_vec(&self.assets),
            proxy_dir: String::new(),
        }
    }
}

/// A clip as the timeline panel lays it out, its times in frames.
#[derive(Debug, Clone)]
pub struct LayoutClip {
    pub clip_id: ClipId,
    pub label: String,
    pub file_path: Option<String>,
    pub start_frame: i64,
    pub duration_frames: i64,
    pub source_in_frame: i64,
    pub media_duration_frames: Option<i64>,
    pub muted: bool,
    pub gain_db: Option<F32Bits>,
    pub link_group_id: Option<u64>,
    pub filters: Vec<EffectInstance>,
}

/// A track as the timeline panel lays it out.
#[derive(Debug, Clone)]
pub struct LayoutTrack {
    pub name: String,
    pub kind: TrackKind,
    pub muted: bool,
    pub locked: bool,
    pub visible: bool,
    pub clips: Vec<LayoutClip>,
}

/// A marker as the timeline panel lays it out.
#[derive(Debug, Clone)]
pub struct LayoutMarker {
    pub label: String,
    pub frame: i64,
}

/// The timeline panel's layout: its length, the clips of the first track
/// when that is a video track, the video and the audio tracks, and the
/// markers, all in frames.
#[derive(Debug, Clone)]
pub struct TimelineLayout {
    pub duration_frames: i64,
    pub v1: Vec<LayoutClip>,
    pub video_tracks: Vec<LayoutTrack>,
    pub audio_tracks: Vec<LayoutTrack>,
    pub markers: Vec<LayoutMarker>,
}

/// `v` lays out clip `c`: its placement, settings and effects, with the
/// path and media length of its asset when the asset is known.
pub open spec fn lays_out_clip(v: LayoutClip, c: Clip, assets: Seq<Asset>) -> bool {
    &&& v.clip_id == c.id && v.label@ == c.label@
    &&& v.start_frame == c.timeline_in && v.duration_frames == c.dur() && v.source_in_frame == c.source_in
    &&& v.muted == c.mute_audio && v.gain_db == c.gain_db && v.link_group_id == c.link_group_id
    &&& same_effects(c.filters@, v.filters@)
    &&& match asset_pos(assets, c.asset_id) {
        Some(i) => (v.file_path matches Some(f) && f@ == assets[i].spec_path()) && v.media_duration_frames
            == assets[i].meta().duration_frames,
        None => v.file_path is None && v.media_duration_frames is None,
    }
}

/// `vs` lays out the clips `cs`, in order.
pub open spec fn lays_out_clips(vs: Seq<LayoutClip>, cs: Seq<Clip>, assets: Seq<Asset>) -> bool {
    vs.len() == cs.len() && forall|j: int| 0 <= j < vs.len() ==> #[trigger] lays_out_clip(vs[j], cs[j], assets)
}

/// `v` lays out track `t`.
pub open spec fn lays_out_track(v: LayoutTrack, t: Track, assets: Seq<Asset>) -> bool {
    &&& v.name == t.name && v.kind == t.kind
    &&& v.muted == t.muted && v.locked == t.locked && v.visible == t.visible
    &&& lays_out_clips(v.clips@, t.clips@, assets)
}

/// `vs` lays out the tracks `ts`, in order.
pub open spec fn lays_out_tracks(vs: Seq<LayoutTrack>, ts: Seq<Track>, assets: Seq<Asset>) -> bool {
    vs.len() == ts.len() && forall|j: int| 0 <= j < vs.len() ==> #[trigger] lays_out_track(vs[j], ts[j], assets)
}

/// `l` is the timeline layout of `p`: the timeline's length, the clips of
/// the first track when it is a video track (none otherwise), the video
/// tracks and the audio tracks in timeline order (other kinds are left
/// out), and every marker's label and frame in order.
pub open spec fn timeline_layout_of(l: TimelineLayout, p: Project) -> bool {
    let ts = p.timeline.tracks@;
    &&& l.duration_frames == (match ends_max(ts) {
        Some(m) => m,
        None => 0,
    })
    &&& if ts.len() > 0 && ts[0].kind == TrackKind::Video {
        lays_out_clips(l.v1@, ts[0].clips@, p.assets@)
    } else {
        l.v1@.len() == 0
    }
    &&& lays_out_tracks(l.video_tracks@, kind_filter(ts, TrackKind::Video), p.assets@)
    &&& lays_out_tracks(l.audio_tracks@, kind_filter(ts, TrackKind::Audio), p.assets@)
    &&& l.markers@.len() == p.timeline.markers@.len()
    &&& forall|j: int|
        0 <= j < l.markers@.len() ==> #[trigger] l.markers@[j].label@ == p.timeline.markers@[j].label@
            && l.markers@[j].frame == p.timeline.markers@[j].frame
}

/// The layout of clip `c` of `p`.
fn layout_clip(p: &Project, c: &Clip) -> (v: LayoutClip)
    ensures
        lays_out_clip(v, *c, p.assets@),
{
    let asset = p.asset(c.asset_id);
    let file_path = match asset {
        Some(a) => Some(String::from_str(a.path())),
        None => None,
    };
    let media_duration_frames = match asset {
        Some(a) => a.metadata().duration_frames,
        None => None,
    };
    LayoutClip {
        clip_id: c.id,
        label: c.label.clone(),
        file_path,
        start_frame: c.timeline_in,
        duration_frames: c.duration(),
        source_in_frame: c.source_in,
        media_duration_frames,
        muted: c.mute_audio,
        gain_db: c.gain_db,
        link_group_id: c.link_group_id,
        filters: copy_vec(&c.filters),
    }
}

/// The layout of the clips `cs` of `p`, in order.
fn layout_clips(p: &Project, cs: &Vec<Clip>) -> (r: Vec<LayoutClip>)
    ensures
        lays_out_clips(r@, cs@, p.assets@),
{
    let mut r: Vec<LayoutClip> = Vec::new();
    let mut k: usize = 0;
    while k < cs.len()
        invariant
            0 <= k <= cs@.len(),
            r@.len() == k,
            forall|j: int| 0 <= j < k ==> #[trigger] lays_out_clip(r@[j], cs@[j], p.assets@),
        decreases cs@.len() - k,
    {
        r.push(layout_clip(p, &cs[k]));
        k = k + 1;
    }
    r
}

/// The layout of track `t` of `p`.
fn layout_track(p: &Project, t: &Track) -> (v: LayoutTrack)
    ensures
        lays_out_track(v, *t, p.assets@),
{
    LayoutTrack {
        name: t.name.clone(),
        kind: t.kind,
        muted: t.muted,
        locked: t.locked,
        visible: t.visible,
        clips: layout_clips(p, &t.clips),
    }
}

/// The timeline layout of `project` (see [`timeline_layout_of`]).
pub fn timeline_layout(project: &Project) -> (l: TimelineLayout)
    requires
        project.timeline.last_ends_fit(),
    ensures
        timeline_layout_of(l, *project),
{
    let tracks = &project.timeline.tracks;
    let ghost assets = project.assets@;
    let mut video: Vec<LayoutTrack> = Vec::new();
    let mut audio: Vec<LayoutTrack> = Vec::new();
    let mut i: usize = 0;
    assert(tracks@.take(0) =~= Seq::<Track>::empty());
    while i < tracks.len()
        invariant
            0 <= i <= tracks@.len(),
            *tracks == project.timeline.tracks,
            assets == project.assets@,
            lays_out_tracks(video@, kind_filter(tracks@.take(i as int), TrackKind::Video), assets),
            lays_out_tracks(audio@, kind_filter(tracks@.take(i as int), TrackKind::Audio), assets),
        decreases tracks@.len() - i,
    {
        let ghost pre_v = video@;
        let ghost pre_a = audio@;
        proof {
            assert(tracks@.take(i + 1).drop_last() =~= tracks@.take(i as int));
            assert(tracks@.take(i + 1).last() == tracks@[i as int]);
        }
        let t = &tracks[i];
        if t.kind == TrackKind::Video {
            video.push(layout_track(project, t));
            assert forall|j: int| 0 <= j < video@.len() implies #[trigger] lays_out_track(
                video@[j],
                kind_filter(tracks@.take(i + 1), TrackKind::Video)[j],
                assets,
            ) by {
                if j < pre_v.len() {
                    assert(video@[j] == pre_v[j]);
                }
            }
        } else if t.kind == TrackKind::Audio {
            audio.push(layout_track(project, t));
            assert forall|j: int| 0 <= j < audio@.len() implies #[trigger] lays_out_track(
                audio@[j],
                kind_filter(tracks@.take(i + 1), TrackKind::Audio)[j],
                assets,
            ) by {
                if j < pre_a.len() {
                    assert(audio@[j] == pre_a[j]);
                }
            }
        }
        i = i + 1;
    }
    assert(tracks@.take(i as int) =~= tracks@);
    let v1 = if tracks.len() > 0 && tracks[0].kind == TrackKind::Video {
        layout_clips(project, &tracks[0].clips)
    } else {
        Vec::new()
    };
    let marks = &project.timeline.markers;
    let mut markers: Vec<LayoutMarker> = Vec::new();
    let mut k: usize = 0;
    while k < marks.len()
        invariant
            0 <= k <= marks@.len(),
            *marks == project.timeline.markers,
            markers@.len() == k,
            forall|j: int|
                0 <= j < k ==> #[trigger] markers@[j].label@ == marks@[j].label@ && markers@[j].frame == marks@[j].frame,
        decreases marks@.len() - k,
    {
        markers.push(LayoutMarker { label: marks[k].label.clone(), frame: marks[k].frame });
        k = k + 1;
    }
    TimelineLayout {
        duration_frames: project.timeline.duration(),
        v1,
        video_tracks: video,
        audio_tracks: audio,
        markers,
    }
}

/// A clip's link group and id, as the link-group view reads them.
pub type LinkEntry = (Option<u64>, u64);

/// The link entries of the clips of `tracks`, in timeline order.
pub open spec fn link_entries(tracks: Seq<Track>) -> Seq<LinkEntry> {
    flat_clips(tracks).map_values(|x: (TrackId, Clip)| (x.1.link_group_id, x.1.id.0))
}

/// The groups of `es`, one per grouped entry, in order.
pub open spec fn group_seq(es: Seq<LinkEntry>) -> Seq<u64>
    decreases es.len(),
{
    if es.len() == 0 {
        Seq::empty()
    } else {
        let p = group_seq(es.drop_last());
        match es.last().0 {
            Some(g) => p.push(g),
            None => p,
        }
    }
}

/// The distinct values of `s`, in order of first appearance.
pub open spec fn first_seen(s: Seq<u64>) -> Seq<u64>
    decreases s.len(),
{
    if s.len() == 0 {
        Seq::empty()
    } else {
        let p = first_seen(s.drop_last());
        if p.contains(s.last()) {
            p
        } else {
            p.push(s.last())
        }
    }
}

/// The ids of the entries of `es` in group `g`, in order.
pub open spec fn group_members(es: Seq<LinkEntry>, g: u64) -> Seq<u64>
    decreases es.len(),
{
    if es.len() == 0 {
        Seq::empty()
    } else {
        let p = group_members(es.drop_last(), g);
        if es.last().0 == Some(g) {
            p.push(es.last().1)
        } else {
            p
        }
    }
}

/// `r` lists every link group of `es` once, in order of first appearance,
/// each with the ids (in decimal) of its clips in order.
pub open spec fn groups_of(r: Seq<LinkGroupView>, es: Seq<LinkEntry>) -> bool {
    let gs = first_seen(group_seq(es));
    &&& r.len() == gs.len()
    &&& forall|i: int|
        0 <= i < r.len() ==> (#[trigger] r[i]).group_id == gs[i] && r[i].clip_ids@.map_values(|s: String| s@)
            == group_members(es, gs[i]).map_values(|id: u64| decimal(id as nat))
}

proof fn lemma_first_seen_contains(s: Seq<u64>, x: u64)
    ensures
        first_seen(s).contains(x) == s.contains(x),
    decreases s.len(),
{
    if s.len() > 0 {
        lemma_first_seen_contains(s.drop_last(), x);
        let p = first_seen(s.drop_last());
        if s.contains(x) && !s.drop_last().contains(x) {
            assert(s.last() == x) by {
                let i = choose|i: int| 0 <= i < s.len() && s[i] == x;
                if i < s.len() - 1 {
                    assert(s.drop_last()[i] == x);
                }
            }
        }
        if s.drop_last().contains(x) {
            let i = choose|i: int| 0 <= i < s.drop_last().len() && s.drop_last()[i] == x;
            assert(s[i] == x);
        }
        if !p.contains(s.last()) {
            assert(p.push(s.last())[p.len() as int] == s.last());
            if p.contains(x) {
                let i = choose|i: int| 0 <= i < p.len() && p[i] == x;
                assert(p.push(s.last())[i] == x);
            }
        }
        if s.last() == x {
            assert(s[s.len() - 1] == x);
        }
    }
}

proof fn lemma_members_absent(es: Seq<LinkEntry>, g: u64)
    requires
        !group_seq(es).contains(g),
    ensures
        group_members(es, g).len() == 0,
    decreases es.len(),
{
    if es.len() > 0 {
        let p = group_seq(es.drop_last());
        match es.last().0 {
            Some(h) => {
                assert(p.push(h)[p.len() as int] == h);
                if p.contains(g) {
                    let i = choose|i: int| 0 <= i < p.len() && p[i] == g;
                    assert(p.push(h)[i] == g);
                }
            },
            None => {},
        }
        lemma_members_absent(es.drop_last(), g);
    }
}

proof fn lemma_first_seen_distinct(s: Seq<u64>)
    ensures
        forall|i: int, j: int| 0 <= i < j < first_seen(s).len() ==> first_seen(s)[i] != first_seen(s)[j],
    decreases s.len(),
{
    if s.len() > 0 {
        lemma_first_seen_distinct(s.drop_last());
        let p = first_seen(s.drop_last());
        if !p.contains(s.last()) {
            assert forall|i: int, j: int| 0 <= i < j < p.push(s.last()).len() implies p.push(s.last())[i]
                != p.push(s.last())[j] by {
                if j == p.len() {
                    assert(p.push(s.last())[i] == p[i]);
                    if p[i] == s.last() {
                        assert(p.contains(s.last()));
                    }
                }
            }
        }
    }
}

/// Position of the view of group `g`.
fn find_group(r: &Vec<LinkGroupView>, g: u64) -> (j: Option<usize>)
    ensures
        j matches Some(k) ==> k < r@.len() && r@[k as int].group_id == g,
        j is None ==> forall|k: int| 0 <= k < r@.len() ==> (#[trigger] r@[k]).group_id != g,
{
    let mut k: usize = 0;
    while k < r.len()
        invariant
            0 <= k <= r@.len(),
            forall|m: int| 0 <= m < k ==> (#[trigger] r@[m]).group_id != g,
        decreases r@.len() - k,
    {
        if r[k].group_id == g {
            return Some(k);
        }
        k = k + 1;
    }
    None
}

/// The link groups of the clips of `p` (see [`groups_of`]).
pub fn link_groups(p: &Project) -> (r: Vec<LinkGroupView>)
    ensures
        groups_of(r@, link_entries(p.timeline.tracks@)),
{
    let views = all_clip_views(p);
    let ghost f = flat_clips(p.timeline.tracks@);
    let ghost es = link_entries(p.timeline.tracks@);
    assert(es.len() == views@.len());
    let mut r: Vec<LinkGroupView> = Vec::new();
    let mut i: usize = 0;
    proof {
        assert(es.take(0) =~= Seq::<LinkEntry>::empty());
        assert(first_seen(group_seq(es.take(0))) =~= Seq::<u64>::empty());
    }
    while i < views.len()
        invariant
            0 <= i <= views@.len(),
            es.len() == views@.len(),
            views_all(views@, p.timeline.tracks@, p.assets@),
            f == flat_clips(p.timeline.tracks@),
            es == link_entries(p.timeline.tracks@),
            groups_of(r@, es.take(i as int)),
        decreases views@.len() - i,
    {
        let ghost q = es.take(i as int);
        let ghost q1 = es.take(i + 1);
        let ghost gs = first_seen(group_seq(q));
        let ghost old_r = r@;
        proof {
            assert(q1.drop_last() =~= q);
            assert(views_clip(views@[i as int], f[i as int].1, f[i as int].0, p.assets@));
            assert(q1.last() == es[i as int]);
            assert(es[i as int] == (f[i as int].1.link_group_id, f[i as int].1.id.0));
            lemma_first_seen_distinct(group_seq(q));
        }
        let v = &views[i];
        match v.link_group_id {
            None => {
                proof {
                    assert(group_seq(q1) == group_seq(q));
                    assert forall|k: int| 0 <= k < r@.len() implies (#[trigger] r@[k]).group_id == gs[k]
                        && r@[k].clip_ids@.map_values(|s: String| s@) == group_members(q1, gs[k]).map_values(
                        |id: u64| decimal(id as nat),
                    ) by {
                        assert(group_members(q1, gs[k]) == group_members(q, gs[k]));
                    }
                }
            },
            Some(g) => {
                let id_text = decimal_string(v.clip_id.0);
                match find_group(&r, g) {
                    Some(j) => {
                        r[j].clip_ids.push(id_text);
                        proof {
                            assert(gs[j as int] == g);
                            assert(gs.contains(g));
                            assert(group_seq(q1) == group_seq(q).push(g));
                            assert(group_seq(q1).drop_last() =~= group_seq(q));
                            assert(first_seen(group_seq(q1)) == gs);
                            assert forall|k: int| 0 <= k < r@.len() implies (#[trigger] r@[k]).group_id == gs[k]
                                && r@[k].clip_ids@.map_values(|s: String| s@) == group_members(q1, gs[k]).map_values(
                                |id: u64| decimal(id as nat),
                            ) by {
                                if k == j {
                                    assert(group_members(q1, g) == group_members(q, g).push(v.clip_id.0));
                                    assert(r@[k].clip_ids@.map_values(|s: String| s@) =~= old_r[k].clip_ids@.map_values(
                                        |s: String| s@,
                                    ).push(id_text@));
                                    assert(group_members(q1, g).map_values(|id: u64| decimal(id as nat))
                                        =~= group_members(q, g).map_values(|id: u64| decimal(id as nat)).push(
                                        decimal(v.clip_id.0 as nat),
                                    ));
                                } else {
                                    assert(gs[k] != gs[j as int]);
                                    assert(r@[k] == old_r[k]);
                                    assert(group_members(q1, gs[k]) == group_members(q, gs[k]));
                                }
                            }
                        }
                    },
                    None => {
                        let mut ids: Vec<String> = Vec::new();
                        ids.push(id_text);
                        r.push(LinkGroupView { group_id: g, clip_ids: ids });
                        proof {
                            assert(!gs.contains(g)) by {
                                if gs.contains(g) {
                                    let k = choose|k: int| 0 <= k < gs.len() && gs[k] == g;
                                    assert(old_r[k].group_id == gs[k]);
                                }
                            }
                            lemma_first_seen_contains(group_seq(q), g);
                            lemma_members_absent(q, g);
                            assert(group_seq(q1) == group_seq(q).push(g));
                            assert(group_seq(q1).drop_last() =~= group_seq(q));
                            assert(first_seen(group_seq(q1)) == gs.push(g));
                            assert forall|k: int| 0 <= k < r@.len() implies (#[trigger] r@[k]).group_id == gs.push(g)[k]
                                && r@[k].clip_ids@.map_values(|s: String| s@) == group_members(q1, gs.push(g)[k]).map_values(
                                |id: u64| decimal(id as nat),
                            ) by {
                                if k == gs.len() {
                                    assert(group_members(q1, g) =~= seq![v.clip_id.0]);
                                    assert(r@[k].clip_ids@.map_values(|s: String| s@) =~= seq![id_text@]);
                                    assert(group_members(q1, g).map_values(|id: u64| decimal(id as nat)) =~= seq![
                                        decimal(v.clip_id.0 as nat),
                                    ]);
                                } else {
                                    assert(r@[k] == old_r[k]);
                                    assert(gs.push(g)[k] == gs[k]);
                                    assert(gs[k] != g);
                                    assert(group_members(q1, gs[k]) == group_members(q, gs[k]));
                                }
                            }
                        }
                    },
                }
            },
        }
        i = i + 1;
    }
    assert(es.take(i as int) =~= es);
    r
}

} // verus!
