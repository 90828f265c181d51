//! The node-and-edge view of a timeline: one node per clip, tracks as
//! ordered lists of nodes, and an edge from each clip to the next one on
//! its track.

use vstd::prelude::*;
use vstd::string::StringExecFns;
use crate::clip::Clip;
use crate::exchange::{is_v4_uid, random_uid};
use crate::ids::AssetId;
use crate::project::Project;
use crate::time::Rational;
use crate::track::{Track, TrackKind};
use crate::views::flat_clips;

verus! {

/// The kind of a track in the graph; text and effect tracks are custom
/// kinds named after them.
#[derive(Debug, Clone, PartialEq, Eq)]
pub enum GraphTrackKind {
    Video,
    Audio,
    Custom(String),
}

/// Frames from `start`, `duration` long.
#[derive(Debug, Clone, Copy, PartialEq, Eq, Structural)]
pub struct FrameRange {
    pub start: i64,
    pub duration: i64,
}

/// A clip as a graph node.
#[derive(Debug)]
pub struct GraphNode {
    pub id: String,
    pub label: String,
    pub asset_id: AssetId,
    pub media_range: FrameRange,
    pub timeline_range: FrameRange,
    pub playback_rate: Rational,
    pub reverse: bool,
    pub link_group_id: Option<u64>,
    pub freeze_frame: Option<i64>,
    pub locked: bool,
}

/// "Plays after": from one clip to the next on its track.
#[derive(Debug)]
pub struct GraphEdge {
    pub from: String,
    pub to: String,
}

/// A track: its name, kind and nodes in order.
#[derive(Debug)]
pub struct TrackBinding {
    pub id: String,
    pub name: String,
    pub kind: GraphTrackKind,
    pub node_ids: Vec<String>,
}

#[derive(Debug)]
pub struct TimelineGraph {
    pub version: u32,
    pub nodes: Vec<GraphNode>,
    pub edges: Vec<GraphEdge>,
    pub tracks: Vec<TrackBinding>,
}

/// The graph kind of a track kind.
pub open spec fn graph_kind_matches(g: GraphTrackKind, k: TrackKind) -> bool {
    match k {
        TrackKind::Video => g == GraphTrackKind::Video,
        TrackKind::Audio => g == GraphTrackKind::Audio,
        TrackKind::Text => g matches GraphTrackKind::Custom(n) && n@ == "Text"@,
        TrackKind::Effect => g matches GraphTrackKind::Custom(n) && n@ == "Effect"@,
    }
}

/// `n` is the node of clip `c`.
pub open spec fn node_of(n: GraphNode, c: Clip) -> bool {
    &&& is_v4_uid(n.id@)
    &&& n.label@ == c.label@
    &&& n.asset_id == c.asset_id
    &&& n.media_range == (FrameRange { start: c.source_in, duration: c.source_duration })
    &&& n.timeline_range.start == c.timeline_in
    &&& n.timeline_range.duration == c.dur()
    &&& n.playback_rate == c.speed
    &&& n.reverse == c.reverse
    &&& n.link_group_id == c.link_group_id
    &&& n.freeze_frame == c.freeze_frame
    &&& !n.locked
}

/// Consecutive pairs of `ids`.
pub open spec fn id_pairs(ids: Seq<Seq<char>>) -> Seq<(Seq<char>, Seq<char>)>
    decreases ids.len(),
{
    if ids.len() < 2 {
        Seq::empty()
    } else {
        id_pairs(ids.drop_last()).push((ids[ids.len() - 2], ids.last()))
    }
}

/// The node ids of a binding as text.
pub open spec fn ids_view(b: TrackBinding) -> Seq<Seq<char>> {
    b.node_ids@.map_values(|s: String| s@)
}

/// The edges of all bindings, track by track.
pub open spec fn edges_of(bs: Seq<TrackBinding>) -> Seq<(Seq<char>, Seq<char>)>
    decreases bs.len(),
{
    if bs.len() == 0 {
        Seq::empty()
    } else {
        edges_of(bs.drop_last()) + id_pairs(ids_view(bs.last()))
    }
}

/// `g` is the graph of `tracks`: version 1, one node per clip in track
/// order, one binding per track listing its nodes, and an edge between
/// consecutive clips of a track.
pub open spec fn graph_of(g: TimelineGraph, tracks: Seq<Track>) -> bool {
    let f = flat_clips(tracks);
    &&& g.version == 1
    &&& g.nodes@.len() == f.len()
    &&& forall|k: int| 0 <= k < f.len() ==> node_of(#[trigger] g.nodes@[k], f[k].1)
    &&& g.tracks@.len() == tracks.len()
    &&& forall|t: int|
        0 <= t < tracks.len() ==> {
            let b = #[trigger] g.tracks@[t];
            let off = flat_clips(tracks.take(t)).len();
            &&& is_v4_uid(b.id@) && b.name@ == tracks[t].name@
            &&& graph_kind_matches(b.kind, tracks[t].kind)
            &&& b.node_ids@.len() == tracks[t].clips@.len()
            &&& forall|i: int| 0 <= i < b.node_ids@.len() ==> (#[trigger] b.node_ids@[i])@ == g.nodes@[off + i].id@
        }
    &&& g.edges@.map_values(|e: GraphEdge| (e.from@, e.to@)) == edges_of(g.tracks@)
}

fn graph_kind(k: TrackKind) -> (g: GraphTrackKind)
    ensures
        graph_kind_matches(g, k),
{
    match k {
        TrackKind::Video => GraphTrackKind::Video,
        TrackKind::Audio => GraphTrackKind::Audio,
        TrackKind::Text => GraphTrackKind::Custom(String::from_str("Text")),
        TrackKind::Effect => GraphTrackKind::Custom(String::from_str("Effect")),
    }
}

fn node_for(c: &Clip) -> (n: GraphNode)
    ensures
        node_of(n, *c),
{
    GraphNode {
        id: random_uid(),
        label: c.label.clone(),
        asset_id: c.asset_id,
        media_range: FrameRange { start: c.source_in, duration: c.source_duration },
        timeline_range: FrameRange { start: c.timeline_in, duration: c.duration() },
        playback_rate: c.speed,
        reverse: c.reverse,
        link_group_id: c.link_group_id,
        freeze_frame: c.freeze_frame,
        locked: false,
    }
}

proof fn lemma_flat_step(tracks: Seq<Track>, t: int)
    requires
        0 <= t < tracks.len(),
    ensures
        flat_clips(tracks.take(t + 1)) == flat_clips(tracks.take(t)) + tracks[t].clips@.map_values(
            |c: Clip| (tracks[t].id, c),
        ),
{
    assert(tracks.take(t + 1).drop_last() =~= tracks.take(t));
}

proof fn lemma_edges_step(bs: Seq<TrackBinding>, b: TrackBinding)
    ensures
        edges_of(bs.push(b)) == edges_of(bs) + id_pairs(ids_view(b)),
{
    assert(bs.push(b).drop_last() =~= bs);
}

/// The graph of the project's timeline (see [`graph_of`]); node and track
/// identifiers are fresh random ones.
pub fn build_graph_from_project(project: &Project) -> (g: TimelineGraph)
    ensures
        graph_of(g, project.timeline.tracks@),
{
    let tracks = &project.timeline.tracks;
    let nt = tracks.len();
    let mut nodes: Vec<GraphNode> = Vec::new();
    let mut edges: Vec<GraphEdge> = Vec::new();
    let mut bindings: Vec<TrackBinding> = Vec::new();
    let mut t: usize = 0;
    while t < nt
        invariant
            nt == tracks@.len(),
            0 <= t <= nt,
            nodes@.len() == flat_clips(tracks@.take(t as int)).len(),
            forall|k: int| 0 <= k < nodes@.len() ==> node_of(#[trigger] nodes@[k], flat_clips(tracks@.take(t as int))[k].1),
            bindings@.len() == t,
            forall|u: int|
                0 <= u < t ==> {
                    let b = #[trigger] bindings@[u];
                    let off = flat_clips(tracks@.take(u)).len();
                    &&& is_v4_uid(b.id@) && b.name@ == tracks@[u].name@
                    &&& graph_kind_matches(b.kind, tracks@[u].kind)
                    &&& b.node_ids@.len() == tracks@[u].clips@.len()
                    &&& off + b.node_ids@.len() <= nodes@.len()
                    &&& forall|i: int| 0 <= i < b.node_ids@.len() ==> (#[trigger] b.node_ids@[i])@ == nodes@[off + i].id@
                },
            edges@.map_values(|e: GraphEdge| (e.from@, e.to@)) == edges_of(bindings@),
        decreases nt - t,
    {
        let track = &tracks[t];
        let clips = &track.clips;
        let nc = clips.len();
        let ghost off = nodes@.len();
        let ghost edges_before = edges@.map_values(|e: GraphEdge| (e.from@, e.to@));
        proof {
            lemma_flat_step(tracks@, t as int);
        }
        let mut ids: Vec<String> = Vec::new();
        let mut i: usize = 0;
        while i < nc
            invariant
                nt == tracks@.len(),
                0 <= t < nt,
                *track == tracks@[t as int],
                *clips == track.clips,
                nc == clips@.len(),
                0 <= i <= nc,
                off == flat_clips(tracks@.take(t as int)).len(),
                flat_clips(tracks@.take(t + 1)) == flat_clips(tracks@.take(t as int)) + clips@.map_values(
                    |c: Clip| (track.id, c),
                ),
                nodes@.len() == off + i,
                ids@.len() == i,
                forall|k: int|
                    0 <= k < nodes@.len() ==> node_of(#[trigger] nodes@[k], flat_clips(tracks@.take(t + 1))[k].1),
                forall|k: int| 0 <= k < i ==> (#[trigger] ids@[k])@ == nodes@[off + k].id@,
                forall|u: int|
                    0 <= u < t ==> {
                        let b = #[trigger] bindings@[u];
                        let o = flat_clips(tracks@.take(u)).len();
                        &&& o + b.node_ids@.len() <= off
                        &&& forall|j: int| 0 <= j < b.node_ids@.len() ==> (#[trigger] b.node_ids@[j])@ == nodes@[o + j].id@
                    },
                edges@.map_values(|e: GraphEdge| (e.from@, e.to@)) == edges_before + id_pairs(
                    ids@.map_values(|s: String| s@),
                ),
            decreases nc - i,
        {
            let node = node_for(&clips[i]);
            let id = node.id.clone();
            let ghost ids_before = ids@.map_values(|s: String| s@);
            let ghost ev_before = edges@.map_values(|e: GraphEdge| (e.from@, e.to@));
            if i > 0 {
                let prev = ids[i - 1].clone();
                edges.push(GraphEdge { from: prev, to: id.clone() });
            }
            nodes.push(node);
            ids.push(id);
            proof {
                let iv = ids@.map_values(|s: String| s@);
                assert(iv.drop_last() =~= ids_before);
                if i > 0 {
                    assert(iv[iv.len() - 2] == ids_before.last());
                    assert(edges@.map_values(|e: GraphEdge| (e.from@, e.to@)) =~= ev_before.push(
                        (ids_before.last(), iv.last()),
                    ));
                } else {
                    assert(edges@.map_values(|e: GraphEdge| (e.from@, e.to@)) =~= ev_before);
                    assert(id_pairs(iv) =~= Seq::empty());
                    assert(id_pairs(ids_before) =~= Seq::empty());
                }
            }
            i = i + 1;
        }
        let binding = TrackBinding {
            id: random_uid(),
            name: track.name.clone(),
            kind: graph_kind(track.kind),
            node_ids: ids,
        };
        proof {
            lemma_edges_step(bindings@, binding);
            assert(ids_view(binding) =~= binding.node_ids@.map_values(|s: String| s@));
        }
        bindings.push(binding);
        t = t + 1;
    }
    assert(tracks@.take(nt as int) =~= tracks@);
    TimelineGraph { version: 1, nodes, edges, tracks: bindings }
}

} // verus!
