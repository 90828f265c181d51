//! What the playback engine mirrors of an edit: the playlist of each track
//! (one entry per clip whose media file is known) and the step an edit
//! asks of the live playlists.

use vstd::prelude::*;
use vstd::string::StringExecFns;
use crate::asset::Asset;
use crate::clip::Clip;
use crate::commands::EditCommand;
use crate::ids::{ClipId, TrackId};
use crate::project::{asset_pos, Project};
use crate::track::{clip_pos, Track};

verus! {

/// One playlist entry: a clip's media file and the source frames it plays.
#[derive(Debug)]
pub struct PlaylistEntry {
    pub clip: ClipId,
    pub path: String,
    pub source_in: i64,
    pub source_out: i64,
}

/// An entry as plain values.
pub open spec fn entry_view(e: PlaylistEntry) -> (ClipId, Seq<char>, i64, i64) {
    (e.clip, e.path@, e.source_in, e.source_out)
}

/// The playlist of a row of clips: the clips whose asset is in `assets`,
/// in order, each playing from its source-in to its source end.
pub open spec fn entries_of(clips: Seq<Clip>, assets: Seq<Asset>) -> Seq<(ClipId, Seq<char>, i64, i64)>
    decreases clips.len(),
{
    if clips.len() == 0 {
        Seq::empty()
    } else {
        let rest = entries_of(clips.drop_last(), assets);
        let c = clips.last();
        match asset_pos(assets, c.asset_id) {
            Some(i) => rest.push(
                (c.id, assets[i].spec_path(), c.source_in, (c.source_in + c.source_duration) as i64),
            ),
            None => rest,
        }
    }
}

/// Every clip's source end fits in `i64`.
pub open spec fn source_ends_fit(clips: Seq<Clip>) -> bool {
    forall|i: int| 0 <= i < clips.len() ==> i64::MIN <= (#[trigger] clips[i]).source_in + clips[i].source_duration <= i64::MAX
}

/// Every clip of the project has a source end that fits in `i64`.
pub open spec fn project_sources_fit(p: Project) -> bool {
    forall|t: int| 0 <= t < p.timeline.tracks@.len() ==> source_ends_fit(#[trigger] p.timeline.tracks@[t].clips@)
}

/// The playlist of `track` (see [`entries_of`]).
pub fn playlist_entries(project: &Project, track: &Track) -> (r: Vec<PlaylistEntry>)
    requires
        source_ends_fit(track.clips@),
    ensures
        r@.map_values(|e: PlaylistEntry| entry_view(e)) == entries_of(track.clips@, project.assets@),
{
    let clips = &track.clips;
    let n = clips.len();
    let mut r: Vec<PlaylistEntry> = Vec::new();
    let mut i: usize = 0;
    while i < n
        invariant
            n == clips@.len(),
            *clips == track.clips,
            source_ends_fit(track.clips@),
            0 <= i <= n,
            r@.map_values(|e: PlaylistEntry| entry_view(e)) == entries_of(clips@.take(i as int), project.assets@),
        decreases n - i,
    {
        let c = &clips[i];
        assert(clips@.take(i + 1).drop_last() =~= clips@.take(i as int));
        assert(clips@.take(i + 1).last() == *c);
        let ghost before = r@.map_values(|e: PlaylistEntry| entry_view(e));
        match project.asset(c.asset_id) {
            Some(a) => {
                assert(i64::MIN <= clips@[i as int].source_in + clips@[i as int].source_duration <= i64::MAX);
                let e = PlaylistEntry {
                    clip: c.id,
                    path: String::from_str(a.path()),
                    source_in: c.source_in,
                    source_out: c.source_in + c.source_duration,
                };
                r.push(e);
                assert(r@.map_values(|e: PlaylistEntry| entry_view(e)) =~= before.push(entry_view(e)));
            },
            None => {},
        }
        i = i + 1;
    }
    assert(clips@.take(n as int) =~= clips@);
    r
}

/// The playlist of one track, connected at its place in the stack.
#[derive(Debug)]
pub struct TrackPlaylist {
    pub track: TrackId,
    pub index: usize,
    pub entries: Vec<PlaylistEntry>,
}

/// `pl` is the playlist of track `t` of `p`, connected at `index`.
pub open spec fn is_playlist_of(pl: TrackPlaylist, p: Project, t: int, index: int) -> bool {
    &&& pl.track == p.timeline.tracks@[t].id
    &&& pl.index == index
    &&& pl.entries@.map_values(|e: PlaylistEntry| entry_view(e)) == entries_of(
        p.timeline.tracks@[t].clips@,
        p.assets@,
    )
}

/// The playlists of every track, each connected at its own index: what
/// the playback engine is rebuilt from.
pub fn track_playlists(project: &Project) -> (r: Vec<TrackPlaylist>)
    requires
        project_sources_fit(*project),
    ensures
        r@.len() == project.timeline.tracks@.len(),
        forall|t: int| 0 <= t < r@.len() ==> is_playlist_of(#[trigger] r@[t], *project, t, t),
{
    let tracks = &project.timeline.tracks;
    let n = tracks.len();
    let mut r: Vec<TrackPlaylist> = Vec::new();
    let mut t: usize = 0;
    while t < n
        invariant
            n == tracks@.len(),
            *tracks == project.timeline.tracks,
            project_sources_fit(*project),
            0 <= t <= n,
            r@.len() == t,
            forall|k: int| 0 <= k < t ==> is_playlist_of(#[trigger] r@[k], *project, k, k),
        decreases n - t,
    {
        let track = &tracks[t];
        assert(source_ends_fit(project.timeline.tracks@[t as int].clips@));
        let entries = playlist_entries(project, track);
        r.push(TrackPlaylist { track: track.id, index: t, entries });
        t = t + 1;
    }
    r
}

/// The playlist of the track `track_id`, connected at its index; `None`
/// when there is no such track.
pub fn track_playlist(project: &Project, track_id: TrackId) -> (r: Option<TrackPlaylist>)
    requires
        project_sources_fit(*project),
    ensures
        match project.timeline.track_slot(track_id) {
            Some(t) => r matches Some(pl) && is_playlist_of(pl, *project, t, t),
            None => r is None,
        },
{
    match project.timeline.track_index(track_id) {
        Some(i) => {
            let track = &project.timeline.tracks[i];
            assert(source_ends_fit(project.timeline.tracks@[i as int].clips@));
            let entries = playlist_entries(project, track);
            Some(TrackPlaylist { track: track.id, index: i, entries })
        },
        None => None,
    }
}

// ---------------------------------------------------------------------------
// Mirroring an edit
// ---------------------------------------------------------------------------

/// The step an edit asks of the live playlists.
#[derive(Debug)]
pub enum MltAction {
    /// Nothing to change.
    Nothing,
    /// Insert `path` playing `source_in..source_out` into the playlist of
    /// `track` at `index` (at its end when `None`).
    Insert { track: TrackId, index: Option<usize>, path: String, source_in: i64, source_out: i64 },
    /// Drop the clip's producer, and the playlist entry at `slot` if any.
    Remove { clip: ClipId, slot: Option<(TrackId, usize)> },
    /// Rebuild the playlist of one track.
    RebuildTrack(TrackId),
    /// Rebuild every playlist.
    RebuildAll,
}

/// The number of clips that start before `position`.
pub open spec fn clips_before(clips: Seq<Clip>, position: i64) -> nat
    decreases clips.len(),
{
    if clips.len() == 0 {
        0
    } else {
        clips_before(clips.drop_last(), position) + if clips.last().timeline_in < position {
            1nat
        } else {
            0nat
        }
    }
}

/// `a` is the step mirrored for `cmd` once it has been applied, giving `p`:
/// an insert goes where the clips before its position end (when its asset
/// is known), a removal takes the clip's entry (if the clip still has a
/// track), a ripple delete rebuilds the clip's track, a filter changes
/// nothing, and every other edit rebuilds all playlists.
pub open spec fn mirrors(a: MltAction, p: Project, cmd: EditCommand) -> bool {
    match cmd {
        EditCommand::InsertClip { asset_id, track_id, position, source_in, source_out, .. } => match asset_pos(
            p.assets@,
            asset_id,
        ) {
            Some(ai) => a matches MltAction::Insert { track, index, path, source_in: si, source_out: so } && track
                == track_id && path@ == p.assets@[ai].spec_path() && si == source_in && so == source_out
                && index == match p.timeline.track_slot(track_id) {
                Some(t) => Some(clips_before(p.timeline.tracks@[t].clips@, position) as usize),
                None => None,
            },
            None => a is Nothing,
        },
        EditCommand::RemoveClip { clip_id } => a matches MltAction::Remove { clip, slot } && clip == clip_id
            && slot == match p.timeline.clip_owner(clip_id) {
            Some(tid) => match p.timeline.track_slot(tid) {
                Some(t) => match clip_pos(p.timeline.tracks@[t].clips@, clip_id) {
                    Some(i) => Some((tid, i as usize)),
                    None => None,
                },
                None => None,
            },
            None => None,
        },
        EditCommand::RippleDelete { clip_id } => match p.timeline.clip_owner(clip_id) {
            Some(tid) => a == MltAction::RebuildTrack(tid),
            None => a is Nothing,
        },
        EditCommand::AddFilter { .. } => a is Nothing,
        _ => a is RebuildAll,
    }
}

fn count_before(clips: &Vec<Clip>, position: i64) -> (r: usize)
    ensures
        r == clips_before(clips@, position),
{
    let n = clips.len();
    let mut k: usize = 0;
    let mut i: usize = 0;
    while i < n
        invariant
            n == clips@.len(),
            0 <= i <= n,
            k == clips_before(clips@.take(i as int), position),
            k <= i,
        decreases n - i,
    {
        assert(clips@.take(i + 1).drop_last() =~= clips@.take(i as int));
        if clips[i].timeline_in < position {
            k = k + 1;
        }
        i = i + 1;
    }
    assert(clips@.take(n as int) =~= clips@);
    k
}

/// The step to mirror for `cmd`, applied to give `project` (see [`mirrors`]).
pub fn mlt_action(project: &Project, cmd: &EditCommand) -> (a: MltAction)
    ensures
        mirrors(a, *project, *cmd),
{
    match cmd {
        EditCommand::InsertClip { asset_id, track_id, position, source_in, source_out, .. } => {
            match project.asset(*asset_id) {
                Some(asset) => {
                    let index = match project.timeline.track(*track_id) {
                        Some(t) => Some(count_before(&t.clips, *position)),
                        None => None,
                    };
                    MltAction::Insert {
                        track: *track_id,
                        index,
                        path: String::from_str(asset.path()),
                        source_in: *source_in,
                        source_out: *source_out,
                    }
                },
                None => MltAction::Nothing,
            }
        },
        EditCommand::RemoveClip { clip_id } => {
            let slot = match project.timeline.clip_track_id(*clip_id) {
                Some(tid) => match project.timeline.track(tid) {
                    Some(track) => match track.clip_index(*clip_id) {
                        Some(i) => Some((tid, i)),
                        None => None,
                    },
                    None => None,
                },
                None => None,
            };
            MltAction::Remove { clip: *clip_id, slot }
        },
        EditCommand::RippleDelete { clip_id } => match project.timeline.clip_track_id(*clip_id) {
            Some(tid) => MltAction::RebuildTrack(tid),
            None => MltAction::Nothing,
        },
        EditCommand::AddFilter { .. } => MltAction::Nothing,
        _ => MltAction::RebuildAll,
    }
}

} // verus!
