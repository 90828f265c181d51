//! Project — the aggregate root: media pool, timeline, multicam groups and
//! plugin registry.

use vstd::prelude::*;
use crate::asset::Asset;
use crate::canvas::Canvas;
use crate::error::ModelError;
use crate::ids::{AssetId, ClipId, PluginId, ProjectId, TrackId};
use crate::multicam::MulticamClip;
use crate::plugin::PluginManifest;
use crate::time::Rational;
use crate::timeline::{Timeline, kind_filter};
use crate::track::{Track, TrackHeight, TrackKind};

verus! {

/// Seconds since the Unix epoch, from the system clock.
///
/// Calls `std::time::SystemTime::now()` and measures it from `UNIX_EPOCH`
/// (0 when the clock is before the epoch).  The value depends on the clock,
/// so nothing is stated of it.
#[verifier::external_body]
pub fn now_secs() -> i64 {
    std::time::SystemTime::now().duration_since(std::time::UNIX_EPOCH).unwrap_or_default().as_secs() as i64
}

/// Top-level project: media pool + timeline + metadata.
#[derive(Debug, Clone)]
pub struct Project {
    pub id: ProjectId,
    pub name: String,
    /// Version of the project format.
    pub version: u32,
    pub canvas: Canvas,
    pub frame_rate: Rational,
    pub sample_rate: u32,
    /// Audio channels (1 = mono, 2 = stereo, 6 = 5.1).
    pub audio_channels: u8,
    /// Assets in the media pool.
    pub assets: Vec<Asset>,
    pub timeline: Timeline,
    /// Creation time (Unix seconds).
    pub created_at: i64,
    /// Last save time (Unix seconds).
    pub updated_at: i64,
    pub multicam_clips: Vec<MulticamClip>,
    pub plugins: Vec<PluginManifest>,
}

/// Project format version when none is given.
pub fn default_version() -> (r: u32)
    ensures
        r == 1,
{
    1
}

/// Audio channel count when none is given (stereo).
pub fn default_channels() -> (r: u8)
    ensures
        r == 2,
{
    2
}

/// Position of the first asset with id `id`.
pub open spec fn asset_pos(assets: Seq<Asset>, id: AssetId) -> Option<int> {
    if exists|i: int| 0 <= i < assets.len() && assets[i].spec_id() == id {
        Some(
            choose|i: int|
                0 <= i < assets.len() && assets[i].spec_id() == id && forall|j: int|
                    0 <= j < i ==> assets[j].spec_id() != id,
        )
    } else {
        None
    }
}

/// Position of the first multicam group whose wrapper clip is `clip_id`.
pub open spec fn multicam_pos(mcs: Seq<MulticamClip>, clip_id: ClipId) -> Option<int> {
    if exists|i: int| 0 <= i < mcs.len() && mcs[i].clip_id == clip_id {
        Some(
            choose|i: int|
                0 <= i < mcs.len() && mcs[i].clip_id == clip_id && forall|j: int|
                    0 <= j < i ==> mcs[j].clip_id != clip_id,
        )
    } else {
        None
    }
}

/// Position of the first plugin manifest with id `id`.
pub open spec fn plugin_pos(ps: Seq<PluginManifest>, id: PluginId) -> Option<int> {
    if exists|i: int| 0 <= i < ps.len() && ps[i].id == id {
        Some(
            choose|i: int|
                0 <= i < ps.len() && ps[i].id == id && forall|j: int| 0 <= j < i ==> ps[j].id != id,
        )
    } else {
        None
    }
}

/// The manifests of `ps` whose id is not `id`, in order.
pub open spec fn without_plugin(ps: Seq<PluginManifest>, id: PluginId) -> Seq<PluginManifest>
    decreases ps.len(),
{
    if ps.len() == 0 {
        ps
    } else if ps.last().id == id {
        without_plugin(ps.drop_last(), id)
    } else {
        without_plugin(ps.drop_last(), id).push(ps.last())
    }
}

/// Some clip of some track plays asset `id`.
pub open spec fn asset_referenced(tracks: Seq<Track>, id: AssetId) -> bool {
    exists|t: int, c: int|
        0 <= t < tracks.len() && 0 <= c < tracks[t].clips@.len() && #[trigger] tracks[t].clips@[c].asset_id
            == id
}

impl Project {
    /// Everything but the asset pool is as in `other`.
    pub open spec fn same_but_assets(self, other: Project) -> bool {
        &&& self.id == other.id && self.name == other.name && self.version == other.version
        &&& self.canvas == other.canvas && self.frame_rate == other.frame_rate
        &&& self.sample_rate == other.sample_rate && self.audio_channels == other.audio_channels
        &&& self.timeline == other.timeline
        &&& self.created_at == other.created_at && self.updated_at == other.updated_at
        &&& self.multicam_clips == other.multicam_clips && self.plugins == other.plugins
    }

    /// Everything but the timeline is as in `other`.
    pub open spec fn same_but_timeline(self, other: Project) -> bool {
        &&& self.id == other.id && self.name == other.name && self.version == other.version
        &&& self.canvas == other.canvas && self.frame_rate == other.frame_rate
        &&& self.sample_rate == other.sample_rate && self.audio_channels == other.audio_channels
        &&& self.assets == other.assets
        &&& self.created_at == other.created_at && self.updated_at == other.updated_at
        &&& self.multicam_clips == other.multicam_clips && self.plugins == other.plugins
    }

    /// Everything but the multicam groups is as in `other`.
    pub open spec fn same_but_multicam(self, other: Project) -> bool {
        &&& self.id == other.id && self.name == other.name && self.version == other.version
        &&& self.canvas == other.canvas && self.frame_rate == other.frame_rate
        &&& self.sample_rate == other.sample_rate && self.audio_channels == other.audio_channels
        &&& self.assets == other.assets && self.timeline == other.timeline
        &&& self.created_at == other.created_at && self.updated_at == other.updated_at
        &&& self.plugins == other.plugins
    }

    /// Everything but the plugin registry is as in `other`.
    pub open spec fn same_but_plugins(self, other: Project) -> bool {
        &&& self.id == other.id && self.name == other.name && self.version == other.version
        &&& self.canvas == other.canvas && self.frame_rate == other.frame_rate
        &&& self.sample_rate == other.sample_rate && self.audio_channels == other.audio_channels
        &&& self.assets == other.assets && self.timeline == other.timeline
        &&& self.created_at == other.created_at && self.updated_at == other.updated_at
        &&& self.multicam_clips == other.multicam_clips
    }

    /// A new, empty project stamped with the current time.
    pub fn new(name: String, canvas: Canvas, frame_rate: Rational) -> (p: Self)
        ensures
            p.id.0 != 0,
            p.name == name,
            p.version == 1,
            p.canvas == canvas,
            p.frame_rate == frame_rate,
            p.sample_rate == 48000,
            p.audio_channels == 2,
            p.assets@.len() == 0,
            p.timeline.is_empty_at(frame_rate),
            p.timeline.index_fresh(),
            p.created_at == p.updated_at,
            p.multicam_clips@.len() == 0,
            p.plugins@.len() == 0,
    {
        let now = now_secs();
        Project {
            id: ProjectId::next(),
            name,
            version: default_version(),
            canvas,
            frame_rate,
            sample_rate: 48000,
            audio_channels: 2,
            assets: Vec::new(),
            timeline: Timeline::new(frame_rate),
            created_at: now,
            updated_at: now,
            multicam_clips: Vec::new(),
            plugins: Vec::new(),
        }
    }

    /// Add an asset to the pool, returning it.
    pub fn add_asset(&mut self, asset: Asset) -> (r: &Asset)
        ensures
            final(self).assets@ == old(self).assets@.push(asset),
            final(self).same_but_assets(*old(self)),
            *r == asset,
    {
        self.assets.push(asset);
        let n = self.assets.len();
        &self.assets[n - 1]
    }

    /// Position of the asset with id `id`.
    pub fn asset_index(&self, id: AssetId) -> (r: Option<usize>)
        ensures
            r matches Some(i) ==> asset_pos(self.assets@, id) == Some(i as int) && i < self.assets@.len(),
            r is None ==> asset_pos(self.assets@, id) is None,
    {
        let mut i: usize = 0;
        while i < self.assets.len()
            invariant
                0 <= i <= self.assets@.len(),
                forall|j: int| 0 <= j < i ==> self.assets@[j].spec_id() != id,
            decreases self.assets@.len() - i,
        {
            if self.assets[i].id() == id {
                proof {
                    let k = asset_pos(self.assets@, id)->0;
                    assert(0 <= k < self.assets@.len() && self.assets@[k].spec_id() == id && forall|j: int|
                        0 <= j < k ==> self.assets@[j].spec_id() != id);
                    if k < i {
                        assert(self.assets@[k].spec_id() != id);
                    }
                    if i < k {
                        assert(self.assets@[i as int].spec_id() != id);
                    }
                }
                return Some(i);
            }
            i = i + 1;
        }
        None
    }

    pub fn asset(&self, id: AssetId) -> (r: Option<&Asset>)
        ensures
            r matches Some(a) ==> asset_pos(self.assets@, id) matches Some(i) && *a == self.assets@[i],
            r is None ==> asset_pos(self.assets@, id) is None,
    {
        match self.asset_index(id) {
            Some(i) => Some(&self.assets[i]),
            None => None,
        }
    }

    /// The first asset with id `id`, for in-place changes.
    pub fn asset_mut(&mut self, id: AssetId) -> (r: Option<&mut Asset>)
        ensures
            match asset_pos(old(self).assets@, id) {
                Some(i) => r matches Some(a) && *a == old(self).assets@[i] && *final(self) == (Project {
                    assets: final(self).assets,
                    ..*old(self)
                }) && final(self).assets@ == old(self).assets@.update(i, *final(a)),
                None => r is None && *final(self) == *old(self),
            },
    {
        match self.asset_index(id) {
            Some(i) => Some(&mut self.assets[i]),
            None => None,
        }
    }

    /// Whether some clip on the timeline plays asset `id`.
    pub fn asset_is_referenced(&self, id: AssetId) -> (b: bool)
        ensures
            b == asset_referenced(self.timeline.tracks@, id),
    {
        let tracks = &self.timeline.tracks;
        let mut t: usize = 0;
        while t < tracks.len()
            invariant
                0 <= t <= tracks@.len(),
                tracks@ == self.timeline.tracks@,
                forall|a: int, c: int|
                    0 <= a < t && 0 <= c < tracks@[a].clips@.len() ==> #[trigger] tracks@[a].clips@[c].asset_id
                        != id,
            decreases tracks@.len() - t,
        {
            let clips = &tracks[t].clips;
            let mut c: usize = 0;
            while c < clips.len()
                invariant
                    0 <= t < tracks@.len(),
                    tracks@ == self.timeline.tracks@,
                    clips@ == tracks@[t as int].clips@,
                    0 <= c <= clips@.len(),
                    forall|a: int, k: int|
                        0 <= a < t && 0 <= k < tracks@[a].clips@.len() ==> #[trigger] tracks@[a].clips@[k].asset_id
                            != id,
                    forall|k: int| 0 <= k < c ==> clips@[k].asset_id != id,
                decreases clips@.len() - c,
            {
                if clips[c].asset_id == id {
                    assert(self.timeline.tracks@[t as int].clips@[c as int].asset_id == id);
                    assert(asset_referenced(self.timeline.tracks@, id));
                    return true;
                }
                c = c + 1;
            }
            t = t + 1;
        }
        false
    }

    /// Remove an asset from the pool; refused while a clip still plays it.
    pub fn remove_asset(&mut self, id: AssetId) -> (r: Result<Asset, ModelError>)
        ensures
            asset_referenced(old(self).timeline.tracks@, id) ==> r == Err::<Asset, ModelError>(
                ModelError::MediaReferenced(id),
            ) && *final(self) == *old(self),
            !asset_referenced(old(self).timeline.tracks@, id) ==> match asset_pos(old(self).assets@, id) {
                Some(i) => r == Ok::<Asset, ModelError>(old(self).assets@[i]) && final(self).assets@
                    == old(self).assets@.remove(i) && final(self).same_but_assets(*old(self)),
                None => r == Err::<Asset, ModelError>(ModelError::UnknownMedia(id)) && *final(self)
                    == *old(self),
            },
    {
        if self.asset_is_referenced(id) {
            return Err(ModelError::MediaReferenced(id));
        }
        match self.asset_index(id) {
            Some(i) => Ok(self.assets.remove(i)),
            None => Err(ModelError::UnknownMedia(id)),
        }
    }

    /// Append a track of `kind` named `name`, indexed after the tracks of the
    /// same kind.
    pub fn add_track_of_kind(&mut self, kind: TrackKind, name: String) -> (id: TrackId)
        ensures
            final(self).same_but_timeline(*old(self)),
            final(self).timeline.tracks@.len() == old(self).timeline.tracks@.len() + 1,
            forall|i: int| 0 <= i < old(self).timeline.tracks@.len() ==> final(self).timeline.tracks@[i]
                == old(self).timeline.tracks@[i],
            ({
                let t = final(self).timeline.tracks@.last();
                &&& t.id == id && id.0 != 0
                &&& t.kind == kind && t.name == name
                &&& t.index == kind_filter(old(self).timeline.tracks@, kind).len()
                &&& t.visible && !t.locked && !t.muted && !t.solo && !t.disabled
                &&& t.color is None && !t.is_primary && t.gain_db is None && t.height == TrackHeight::Medium
                &&& t.clips@.len() == 0 && t.effects@.len() == 0
            }),
            final(self).timeline == (Timeline { tracks: final(self).timeline.tracks, ..old(self).timeline }),
            final(self).timeline.markers == old(self).timeline.markers,
            final(self).timeline.track_pos_index == old(self).timeline.track_pos_index,
            final(self).timeline.clip_track_index == old(self).timeline.clip_track_index,
    {
        let idx = self.timeline.count_of_kind(kind);
        let track = Track::new(kind, name, idx);
        self.timeline.add_track(track)
    }

    pub fn add_video_track(&mut self, name: String) -> (id: TrackId)
        ensures
            final(self).same_but_timeline(*old(self)),
            final(self).timeline.tracks@.len() == old(self).timeline.tracks@.len() + 1,
            final(self).timeline.tracks@.last().id == id,
            final(self).timeline.tracks@.last().kind == TrackKind::Video,
            final(self).timeline.tracks@.last().index == kind_filter(old(self).timeline.tracks@, TrackKind::Video).len(),
    {
        proof {
            lemma_kind_filter_len(self.timeline.tracks@, TrackKind::Video);
        }
        self.add_track_of_kind(TrackKind::Video, name)
    }

    pub fn add_audio_track(&mut self, name: String) -> (id: TrackId)
        ensures
            final(self).same_but_timeline(*old(self)),
            final(self).timeline == (Timeline { tracks: final(self).timeline.tracks, ..old(self).timeline }),
            final(self).timeline.tracks@.len() == old(self).timeline.tracks@.len() + 1,
            final(self).timeline.tracks@.drop_last() == old(self).timeline.tracks@,
            final(self).timeline.tracks@.last().id == id,
            final(self).timeline.tracks@.last().kind == TrackKind::Audio,
            final(self).timeline.tracks@.last().index == kind_filter(old(self).timeline.tracks@, TrackKind::Audio).len(),
            ({
                let t = final(self).timeline.tracks@.last();
                &&& id.0 != 0 && t.name == name
                &&& t.visible && !t.locked && !t.muted && !t.solo && !t.disabled
                &&& t.color is None && !t.is_primary && t.gain_db is None && t.height == TrackHeight::Medium
                &&& t.clips@.len() == 0 && t.effects@.len() == 0
            }),
    {
        proof {
            lemma_kind_filter_len(self.timeline.tracks@, TrackKind::Audio);
        }
        let id = self.add_track_of_kind(TrackKind::Audio, name);
        assert(self.timeline.tracks@.drop_last() =~= old(self).timeline.tracks@);
        id
    }

    pub fn add_text_track(&mut self, name: String) -> (id: TrackId)
        ensures
            final(self).same_but_timeline(*old(self)),
            final(self).timeline.tracks@.len() == old(self).timeline.tracks@.len() + 1,
            final(self).timeline.tracks@.last().id == id,
            final(self).timeline.tracks@.last().kind == TrackKind::Text,
            final(self).timeline.tracks@.last().index == kind_filter(old(self).timeline.tracks@, TrackKind::Text).len(),
    {
        proof {
            lemma_kind_filter_len(self.timeline.tracks@, TrackKind::Text);
        }
        self.add_track_of_kind(TrackKind::Text, name)
    }

    /// Position of the multicam group whose wrapper clip is `clip_id`.
    pub fn multicam_index(&self, clip_id: ClipId) -> (r: Option<usize>)
        ensures
            r matches Some(i) ==> multicam_pos(self.multicam_clips@, clip_id) == Some(i as int) && i
                < self.multicam_clips@.len(),
            r is None ==> multicam_pos(self.multicam_clips@, clip_id) is None,
    {
        let mut i: usize = 0;
        while i < self.multicam_clips.len()
            invariant
                0 <= i <= self.multicam_clips@.len(),
                forall|j: int| 0 <= j < i ==> self.multicam_clips@[j].clip_id != clip_id,
            decreases self.multicam_clips@.len() - i,
        {
            if self.multicam_clips[i].clip_id == clip_id {
                proof {
                    let m = self.multicam_clips@;
                    let k = multicam_pos(m, clip_id)->0;
                    assert(0 <= k < m.len() && m[k].clip_id == clip_id && forall|j: int|
                        0 <= j < k ==> m[j].clip_id != clip_id);
                    if k < i {
                        assert(m[k].clip_id != clip_id);
                    }
                    if i < k {
                        assert(m[i as int].clip_id != clip_id);
                    }
                }
                return Some(i);
            }
            i = i + 1;
        }
        None
    }

    /// The multicam group whose wrapper clip is `clip_id`.
    pub fn multicam_for_clip(&self, clip_id: ClipId) -> (r: Option<&MulticamClip>)
        ensures
            r matches Some(m) ==> multicam_pos(self.multicam_clips@, clip_id) matches Some(i) && *m
                == self.multicam_clips@[i],
            r is None ==> multicam_pos(self.multicam_clips@, clip_id) is None,
    {
        match self.multicam_index(clip_id) {
            Some(i) => Some(&self.multicam_clips[i]),
            None => None,
        }
    }

    /// The multicam group whose wrapper clip is `clip_id`, for in-place
    /// changes.
    pub fn multicam_for_clip_mut(&mut self, clip_id: ClipId) -> (r: Option<&mut MulticamClip>)
        ensures
            match multicam_pos(old(self).multicam_clips@, clip_id) {
                Some(i) => r matches Some(m) && *m == old(self).multicam_clips@[i] && *final(self) == (Project {
                    multicam_clips: final(self).multicam_clips,
                    ..*old(self)
                }) && final(self).multicam_clips@ == old(self).multicam_clips@.update(i, *final(m)),
                None => r is None && *final(self) == *old(self),
            },
    {
        match self.multicam_index(clip_id) {
            Some(i) => Some(&mut self.multicam_clips[i]),
            None => None,
        }
    }

    pub fn add_multicam(&mut self, mc: MulticamClip)
        ensures
            final(self).multicam_clips@ == old(self).multicam_clips@.push(mc),
            final(self).same_but_multicam(*old(self)),
    {
        self.multicam_clips.push(mc);
    }

    /// Remove the multicam group whose wrapper clip is `clip_id`.
    pub fn remove_multicam(&mut self, clip_id: ClipId) -> (r: Option<MulticamClip>)
        ensures
            final(self).same_but_multicam(*old(self)),
            match multicam_pos(old(self).multicam_clips@, clip_id) {
                Some(i) => r == Some(old(self).multicam_clips@[i]) && final(self).multicam_clips@
                    == old(self).multicam_clips@.remove(i),
                None => r is None && final(self).multicam_clips == old(self).multicam_clips,
            },
    {
        match self.multicam_index(clip_id) {
            Some(i) => Some(self.multicam_clips.remove(i)),
            None => None,
        }
    }

    /// Drop every manifest with id `id`.
    pub fn remove_plugin(&mut self, id: PluginId)
        ensures
            final(self).plugins@ == without_plugin(old(self).plugins@, id),
            final(self).same_but_plugins(*old(self)),
    {
        let mut kept: Vec<PluginManifest> = Vec::new();
        let mut old_list: Vec<PluginManifest> = Vec::new();
        std::mem::swap(&mut old_list, &mut self.plugins);
        let ghost src = old_list@;
        let mut i: usize = 0;
        assert(src.take(0) =~= Seq::<PluginManifest>::empty());
        while old_list.len() > 0
            invariant
                src == old(self).plugins@,
                old_list@ =~= src.skip(src.len() - old_list@.len()),
                kept@ == without_plugin(src.take(src.len() - old_list@.len()), id),
                old_list@.len() <= src.len(),
                self.same_but_plugins(*old(self)),
            decreases old_list@.len(),
        {
            let ghost done = src.len() - old_list@.len();
            let p = old_list.remove(0);
            assert(p == src[done]);
            assert(src.take(done + 1).drop_last() =~= src.take(done));
            assert(src.take(done + 1).last() == src[done]);
            if p.id != id {
                kept.push(p);
            }
            assert(old_list@ =~= src.skip(src.len() - old_list@.len()));
        }
        assert(src.take(src.len() as int) =~= src);
        self.plugins = kept;
    }

    /// Register a manifest, replacing any manifest with the same id.
    pub fn add_plugin(&mut self, manifest: PluginManifest)
        ensures
            final(self).plugins@ == without_plugin(old(self).plugins@, manifest.id).push(manifest),
            final(self).same_but_plugins(*old(self)),
    {
        self.remove_plugin(manifest.id);
        self.plugins.push(manifest);
    }

    /// Position of the plugin manifest with id `id`.
    pub fn plugin_index(&self, id: PluginId) -> (r: Option<usize>)
        ensures
            r matches Some(i) ==> plugin_pos(self.plugins@, id) == Some(i as int) && i < self.plugins@.len(),
            r is None ==> plugin_pos(self.plugins@, id) is None,
    {
        let mut i: usize = 0;
        while i < self.plugins.len()
            invariant
                0 <= i <= self.plugins@.len(),
                forall|j: int| 0 <= j < i ==> self.plugins@[j].id != id,
            decreases self.plugins@.len() - i,
        {
            if self.plugins[i].id == id {
                proof {
                    let m = self.plugins@;
                    let k = plugin_pos(m, id)->0;
                    assert(0 <= k < m.len() && m[k].id == id && forall|j: int| 0 <= j < k ==> m[j].id != id);
                    if k < i {
                        assert(m[k].id != id);
                    }
                    if i < k {
                        assert(m[i as int].id != id);
                    }
                }
                return Some(i);
            }
            i = i + 1;
        }
        None
    }

    /// The registered plugin `id`, for in-place changes.
    pub fn plugin_mut(&mut self, id: PluginId) -> (r: Option<&mut PluginManifest>)
        ensures
            match plugin_pos(old(self).plugins@, id) {
                Some(i) => r matches Some(m) && *m == old(self).plugins@[i] && *final(self) == (Project {
                    plugins: final(self).plugins,
                    ..*old(self)
                }) && final(self).plugins@ == old(self).plugins@.update(i, *final(m)),
                None => r is None && *final(self) == *old(self),
            },
    {
        match self.plugin_index(id) {
            Some(i) => Some(&mut self.plugins[i]),
            None => None,
        }
    }

    pub fn plugin(&self, id: PluginId) -> (r: Option<&PluginManifest>)
        ensures
            r matches Some(m) ==> plugin_pos(self.plugins@, id) matches Some(i) && *m == self.plugins@[i],
            r is None ==> plugin_pos(self.plugins@, id) is None,
    {
        match self.plugin_index(id) {
            Some(i) => Some(&self.plugins[i]),
            None => None,
        }
    }
}

proof fn lemma_kind_filter_len(tracks: Seq<Track>, kind: TrackKind)
    ensures
        kind_filter(tracks, kind).len() <= tracks.len(),
    decreases tracks.len(),
{
    if tracks.len() > 0 {
        lemma_kind_filter_len(tracks.drop_last(), kind);
    }
}

/// After registering a manifest, exactly one registered manifest has its id.
pub proof fn lemma_add_plugin_unique(ps: Seq<PluginManifest>, m: PluginManifest)
    ensures
        forall|i: int|
            0 <= i < without_plugin(ps, m.id).push(m).len() && without_plugin(ps, m.id).push(m)[i].id
                == m.id ==> i == without_plugin(ps, m.id).len(),
{
    lemma_without_plugin_excludes(ps, m.id);
}

/// No manifest left by `without_plugin` has the dropped id.
pub proof fn lemma_without_plugin_excludes(ps: Seq<PluginManifest>, id: PluginId)
    ensures
        forall|i: int| 0 <= i < without_plugin(ps, id).len() ==> without_plugin(ps, id)[i].id != id,
    decreases ps.len(),
{
    if ps.len() > 0 {
        lemma_without_plugin_excludes(ps.drop_last(), id);
    }
}

} // verus!
