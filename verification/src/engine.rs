//! The editing session: the project being edited, its undo/redo history and
//! the named snapshots the user can go back to.

use vstd::prelude::*;
use vstd::string::StringExecFns;
use crate::apply::EngineError;
use crate::canvas::Canvas;
use crate::commands::{EditCommand, label_of};
use crate::copy::DeepCopy;
use crate::edit::{applicable, apply_commands, apply_to_model, batch_applicable, batch_outcome, outcome};
use crate::history::{EditHistory, HistoryModel, model_wf, spec_record, spec_redo, spec_undo};
use crate::plugin::PluginManifest;
use crate::project::{Project, now_secs};
use crate::asset::Asset;
use crate::clip::Clip;
use crate::ids::{AssetId, ClipId, TrackId};
use crate::project::asset_pos;
use crate::repair::{ids_distinct, lemma_plan_same_tracks, reindexed, repair_plan, repair_project, repaired, repairs_fit};
use crate::text::{chars_of, decimal, decimal_string, lowercase, str_eq, to_lower};
use crate::track::{clips_measurable, Track};
use crate::time::Rational;
use crate::timeline::{Timeline, ends_max, gaps_from};

verus! {

/// How many edits the undo history keeps.
pub const DEFAULT_HISTORY_LIMIT: usize = 128;

/// How many named snapshots are kept.
pub const MAX_SNAPSHOTS: usize = 20;

/// The abstract state of an [`Engine`].
pub struct EngineModel {
    pub project: Project,
    pub history: HistoryModel,
    /// Named snapshots, oldest first.
    pub snapshots: Seq<(Seq<char>, Project)>,
}

/// The headless editing session.
pub struct Engine {
    project: Project,
    history: EditHistory,
    snapshots: Vec<(String, Project)>,
}

/// The abstract view of a list of named snapshots.
pub open spec fn named_view(v: Seq<(String, Project)>) -> Seq<(Seq<char>, Project)> {
    v.map_values(|e: (String, Project)| (e.0@, e.1))
}

impl View for Engine {
    type V = EngineModel;

    closed spec fn view(&self) -> EngineModel {
        EngineModel { project: self.project, history: self.history@, snapshots: named_view(self.snapshots@) }
    }
}

/// The engine's history keeps [`DEFAULT_HISTORY_LIMIT`] edits and at most
/// [`MAX_SNAPSHOTS`] snapshots are kept.
pub open spec fn engine_wf(m: EngineModel) -> bool {
    &&& model_wf(m.history)
    &&& m.history.limit == DEFAULT_HISTORY_LIMIT
    &&& m.snapshots.len() <= MAX_SNAPSHOTS
}

/// The project after a successful edit: the lookup index rebuilt for the
/// edited tracks, and the modification time set; nothing else changes.
pub open spec fn finished(edited: Project, post: Project) -> bool {
    &&& post == (Project {
        timeline: Timeline {
            clip_track_index: post.timeline.clip_track_index,
            track_pos_index: post.timeline.track_pos_index,
            ..edited.timeline
        },
        updated_at: post.updated_at,
        ..edited
    })
    &&& post.timeline.index_fresh()
}

/// What an edit through the engine leaves: a copy of the project before the
/// edit is recorded for undo under `label`; the project is `edited`, and
/// after a success it is [`finished`]; the snapshots do not change.
pub open spec fn recorded_edit(
    pre: EngineModel,
    label: Seq<char>,
    edited: Project,
    r: Result<(), EngineError>,
    post: EngineModel,
) -> bool {
    &&& post.history.undo.len() > 0
    &&& post.history == spec_record(pre.history, label, post.history.undo.last().1)
    &&& Project::same(pre.project, post.history.undo.last().1)
    &&& post.snapshots == pre.snapshots
    &&& match r {
        Ok(_) => finished(edited, post.project),
        Err(_) => post.project == edited,
    }
}

/// The frame count of a timeline: the latest end among the last clips of
/// its tracks, or 0 when it has no clips.
pub open spec fn total_of(t: Timeline) -> int {
    match ends_max(t.tracks@) {
        Some(m) => m,
        None => 0,
    }
}

/// The playhead of a loaded project, kept inside `[0, max(total - 1, 0)]`.
pub open spec fn clamped_playhead(playhead: i64, total: int) -> i64 {
    let max_frame = if total - 1 > 0 { total - 1 } else { 0 };
    if playhead < 0 {
        0
    } else if playhead > max_frame {
        max_frame as i64
    } else {
        playhead
    }
}

/// The history label of a batch: the label of its command when it holds
/// exactly one, otherwise the number of commands followed by " edits".
pub open spec fn batch_label(cmds: Seq<EditCommand>) -> Seq<char> {
    if cmds.len() == 1 {
        label_of(cmds[0])
    } else {
        decimal(cmds.len()) + " edits"@
    }
}

/// The snapshots after saving `p` under `name`: an older snapshot of that
/// name is dropped, the new one goes last, and the oldest is dropped when
/// more than [`MAX_SNAPSHOTS`] remain.
pub open spec fn spec_save(snaps: Seq<(Seq<char>, Project)>, name: Seq<char>, p: Project) -> Seq<
    (Seq<char>, Project),
> {
    let pushed = without_name(snaps, name).push((name, p));
    if pushed.len() > MAX_SNAPSHOTS {
        pushed.drop_first()
    } else {
        pushed
    }
}

/// The snapshots not named `name`, in order.
pub open spec fn without_name(snaps: Seq<(Seq<char>, Project)>, name: Seq<char>) -> Seq<(Seq<char>, Project)> {
    snaps.filter(|e: (Seq<char>, Project)| e.0 != name)
}

/// Position of the first snapshot named `name`.
pub open spec fn snapshot_pos(snaps: Seq<(Seq<char>, Project)>, name: Seq<char>) -> Option<int> {
    if exists|i: int| 0 <= i < snaps.len() && snaps[i].0 == name {
        Some(
            choose|i: int|
                0 <= i < snaps.len() && snaps[i].0 == name && forall|j: int| 0 <= j < i ==> snaps[j].0 != name,
        )
    } else {
        None
    }
}

/// Restoring `name`: the first snapshot of that name is taken out of the
/// list and its project returned; `None` when there is none.
pub open spec fn spec_restore(snaps: Seq<(Seq<char>, Project)>, name: Seq<char>) -> Option<
    (Project, Seq<(Seq<char>, Project)>),
> {
    match snapshot_pos(snaps, name) {
        Some(i) => Some((snaps[i].1, snaps.remove(i))),
        None => None,
    }
}

/// The names of the snapshots, oldest first.
pub open spec fn snapshot_names_of(snaps: Seq<(Seq<char>, Project)>) -> Seq<Seq<char>> {
    snaps.map_values(|e: (Seq<char>, Project)| e.0)
}

/// The snapshots of `v` not named `name`, in order.
fn without_named(v: Vec<(String, Project)>, name: &str) -> (r: Vec<(String, Project)>)
    ensures
        named_view(r@) == without_name(named_view(v@), name@),
{
    let ghost orig = named_view(v@);
    let ghost pred = |e: (Seq<char>, Project)| e.0 != name@;
    let mut kept: Vec<(String, Project)> = Vec::new();
    let mut rest = v;
    let ghost mut j: int = 0;
    proof {
        reveal(Seq::filter);
        assert(orig.take(0).filter(pred) =~= Seq::<(Seq<char>, Project)>::empty());
        assert(named_view(kept@) =~= Seq::<(Seq<char>, Project)>::empty());
        assert(named_view(rest@) =~= orig.skip(0));
    }
    while rest.len() > 0
        invariant
            0 <= j <= orig.len(),
            pred == (|e: (Seq<char>, Project)| e.0 != name@),
            named_view(rest@) == orig.skip(j),
            named_view(kept@) == orig.take(j).filter(pred),
        decreases rest@.len(),
    {
        let ghost before_rest = rest@;
        let ghost before_kept = kept@;
        let e = rest.remove(0);
        proof {
            assert(named_view(before_rest).len() == before_rest.len());
            assert(orig.skip(j).len() > 0);
            assert(orig.skip(j)[0] == orig[j]);
            assert(named_view(before_rest)[0] == (before_rest[0].0@, before_rest[0].1));
            assert(e == before_rest[0]);
            assert((e.0@, e.1) == orig[j]);
            assert forall|k: int| 0 <= k < rest@.len() implies named_view(rest@)[k] == orig.skip(j + 1)[k] by {
                assert(rest@[k] == before_rest[k + 1]);
                assert(named_view(before_rest)[k + 1] == orig.skip(j)[k + 1]);
            }
            assert(named_view(rest@) =~= orig.skip(j + 1));
            reveal(Seq::filter);
            assert(orig.take(j + 1).drop_last() =~= orig.take(j));
            assert(orig.take(j + 1).last() == orig[j]);
        }
        if !str_eq(e.0.as_str(), name) {
            kept.push(e);
            proof {
                assert(named_view(kept@) =~= named_view(before_kept).push(orig[j]));
            }
        }
        proof {
            j = j + 1;
        }
    }
    proof {
        assert(orig.take(j) =~= orig);
    }
    kept
}

/// Position of the first snapshot of `v` named `name`.
fn find_named(v: &Vec<(String, Project)>, name: &str) -> (r: Option<usize>)
    ensures
        r matches Some(i) ==> snapshot_pos(named_view(v@), name@) == Some(i as int) && i < v@.len(),
        r is None ==> snapshot_pos(named_view(v@), name@) is None,
{
    let ghost s = named_view(v@);
    let mut i: usize = 0;
    while i < v.len()
        invariant
            0 <= i <= v@.len(),
            s == named_view(v@),
            forall|j: int| 0 <= j < i ==> s[j].0 != name@,
        decreases v@.len() - i,
    {
        if str_eq(v[i].0.as_str(), name) {
            proof {
                assert(s[i as int].0 == name@);
                let k = snapshot_pos(s, name@)->0;
                if k < i {
                    assert(s[k].0 != name@);
                }
                if i < k {
                    assert(s[i as int].0 != name@);
                }
            }
            return Some(i);
        }
        i = i + 1;
    }
    proof {
        if exists|k: int| 0 <= k < s.len() && s[k].0 == name@ {
            let k = choose|k: int| 0 <= k < s.len() && s[k].0 == name@;
            assert(s[k].0 != name@);
        }
    }
    None
}

/// A clip found by [`Engine::search_clips`].
#[derive(Debug, Clone)]
pub struct ClipMatch {
    pub clip_id: ClipId,
    pub label: String,
    pub asset_id: AssetId,
}

/// The abstract value of a [`ClipMatch`].
pub open spec fn match_view(m: ClipMatch) -> (ClipId, Seq<char>, AssetId) {
    (m.clip_id, m.label@, m.asset_id)
}

/// The first asset with id `id`, if any.
pub open spec fn asset_of(assets: Seq<Asset>, id: AssetId) -> Option<Asset> {
    match asset_pos(assets, id) {
        Some(i) => Some(assets[i]),
        None => None,
    }
}

/// The texts of `s` separated by single spaces.
pub open spec fn join_spaced(s: Seq<Seq<char>>) -> Seq<char>
    decreases s.len(),
{
    if s.len() == 0 {
        Seq::empty()
    } else if s.len() == 1 {
        s[0]
    } else {
        join_spaced(s.drop_last()) + seq![' '] + s.last()
    }
}

/// The text a clip is searched in: its lower-cased label, the description
/// of its asset and the asset's labels, separated by spaces.
pub open spec fn haystack(label_lower: Seq<char>, asset: Option<Asset>) -> Seq<char> {
    let desc = match asset {
        Some(a) => match a.meta().ai_description {
            Some(d) => d@,
            None => Seq::empty(),
        },
        None => Seq::empty(),
    };
    let labels = match asset {
        Some(a) => join_spaced(a.meta().ai_labels@.map_values(|l: String| l@)),
        None => Seq::empty(),
    };
    label_lower + seq![' '] + desc + seq![' '] + labels
}

/// `q` occurs in `text` as a contiguous run.
pub open spec fn contains_seq(text: Seq<char>, q: Seq<char>) -> bool {
    exists|i: int| 0 <= i && i + q.len() <= text.len() && #[trigger] text.subrange(i, i + q.len()) == q
}

/// Whether a clip with lower-cased label `label_lower` and asset `asset`
/// matches the lower-cased query `q`: an empty query matches everything.
pub open spec fn text_matches(label_lower: Seq<char>, asset: Option<Asset>, q: Seq<char>) -> bool {
    q.len() == 0 || contains_seq(haystack(label_lower, asset), q)
}

/// Whether `c` is a search hit for the lower-cased query `q`.
pub open spec fn is_hit(c: Clip, assets: Seq<Asset>, q: Seq<char>, min_duration: Option<i64>) -> bool {
    &&& min_duration matches Some(m) ==> c.dur() >= m
    &&& text_matches(lowercase(c.label@), asset_of(assets, c.asset_id), q)
}

/// The hits among `clips`, in order.
pub open spec fn clip_hits(clips: Seq<Clip>, assets: Seq<Asset>, q: Seq<char>, min_duration: Option<i64>) -> Seq<
    (ClipId, Seq<char>, AssetId),
>
    decreases clips.len(),
{
    if clips.len() == 0 {
        Seq::empty()
    } else {
        let prev = clip_hits(clips.drop_last(), assets, q, min_duration);
        let c = clips.last();
        if is_hit(c, assets, q, min_duration) {
            prev.push((c.id, c.label@, c.asset_id))
        } else {
            prev
        }
    }
}

/// The hits on `tracks`, track by track, each in clip order.
pub open spec fn track_hits(tracks: Seq<Track>, assets: Seq<Asset>, q: Seq<char>, min_duration: Option<i64>) -> Seq<
    (ClipId, Seq<char>, AssetId),
>
    decreases tracks.len(),
{
    if tracks.len() == 0 {
        Seq::empty()
    } else {
        track_hits(tracks.drop_last(), assets, q, min_duration) + clip_hits(
            tracks.last().clips@,
            assets,
            q,
            min_duration,
        )
    }
}

/// The export format an already lower-cased preset name stands for: the
/// known names map to their format, anything else passes through.
pub open spec fn export_format_for(p: Seq<char>) -> Seq<char> {
    if p == "h264"@ || p == "h.264"@ || p == "x264"@ {
        "avformat-x264"@
    } else if p == "h265"@ || p == "h.265"@ || p == "hevc"@ || p == "x265"@ {
        "avformat-x265"@
    } else if p == "prores"@ || p == "prores_ks"@ || p == "prores422"@ || p == "prores_4444"@ || p
        == "prores4444"@ {
        "avformat-prores_ks"@
    } else if p == "vp9"@ || p == "webm"@ {
        "avformat-libvpx-vp9"@
    } else {
        p
    }
}

/// The texts of `v` separated by single spaces.
fn join_with_spaces(v: &Vec<String>) -> (r: String)
    ensures
        r@ == join_spaced(v@.map_values(|l: String| l@)),
{
    let ghost m = v@.map_values(|l: String| l@);
    let mut r = String::new();
    proof {
        reveal_strlit(" ");
    }
    let mut i: usize = 0;
    while i < v.len()
        invariant
            0 <= i <= v@.len(),
            m == v@.map_values(|l: String| l@),
            r@ == join_spaced(m.take(i as int)),
            " "@ == seq![' '],
        decreases v@.len() - i,
    {
        proof {
            assert(m.take(i + 1).drop_last() =~= m.take(i as int));
            assert(m.take(i + 1).last() == v@[i as int]@);
        }
        if i > 0 {
            r.append(" ");
        }
        r.append(v[i].as_str());
        proof {
            if i == 0 {
                assert(m.take(1) =~= seq![m[0]]);
                assert(r@ =~= join_spaced(m.take(1)));
            } else {
                assert(r@ =~= join_spaced(m.take(i as int)) + seq![' '] + m.take(i + 1).last());
            }
        }
        i = i + 1;
    }
    assert(m.take(i as int) =~= m);
    r
}

/// Whether `q` occurs in `text`.
pub fn contains_chars(text: &Vec<char>, q: &Vec<char>) -> (b: bool)
    ensures
        b == contains_seq(text@, q@),
{
    let n = text.len();
    let k = q.len();
    if k > n {
        proof {
            if contains_seq(text@, q@) {
                let i = choose|i: int| 0 <= i && i + q@.len() <= text@.len() && #[trigger] text@.subrange(i, i + q@.len()) == q@;
            }
        }
        return false;
    }
    let mut i: usize = 0;
    while i <= n - k
        invariant
            k == q@.len(),
            n == text@.len(),
            k <= n,
            0 <= i <= n - k + 1,
            forall|j: int| 0 <= j < i ==> #[trigger] text@.subrange(j, j + k) != q@,
        decreases n - k + 1 - i,
    {
        let mut t: usize = 0;
        let mut same = true;
        while t < k
            invariant
                k == q@.len(),
                n == text@.len(),
                i + k <= n,
                0 <= t <= k,
                same == (forall|u: int| 0 <= u < t ==> text@[i + u] == q@[u]),
            decreases k - t,
        {
            if text[i + t] != q[t] {
                same = false;
            }
            t = t + 1;
        }
        if same {
            assert(text@.subrange(i as int, i + k) =~= q@);
            return true;
        }
        proof {
            if text@.subrange(i as int, i + k) == q@ {
                let u = choose|u: int| 0 <= u < k && text@[i + u] != q@[u];
                assert(text@.subrange(i as int, i + k)[u] == text@[i + u]);
            }
        }
        i = i + 1;
    }
    proof {
        if contains_seq(text@, q@) {
            let j = choose|j: int| 0 <= j && j + q@.len() <= text@.len() && #[trigger] text@.subrange(j, j + q@.len()) == q@;
            assert(text@.subrange(j, j + k) != q@);
        }
    }
    false
}

/// Whether a clip whose label, lower-cased, is `label_lower` and whose asset
/// is `asset` matches the lower-cased query `q`.
pub fn text_match(label_lower: &str, asset: Option<&Asset>, q: &str) -> (b: bool)
    ensures
        b == text_matches(label_lower@, match asset {
            Some(a) => Some(*a),
            None => None,
        }, q@),
{
    let qv = chars_of(q);
    if qv.len() == 0 {
        return true;
    }
    proof {
        reveal_strlit(" ");
    }
    let mut h = String::from_str(label_lower);
    h.append(" ");
    match asset {
        Some(a) => match &a.metadata().ai_description {
            Some(d) => h.append(d.as_str()),
            None => {},
        },
        None => {},
    }
    h.append(" ");
    match asset {
        Some(a) => {
            let labels = join_with_spaces(&a.metadata().ai_labels);
            h.append(labels.as_str());
        },
        None => {},
    }
    let ghost opt = match asset {
        Some(a) => Some(*a),
        None => None::<Asset>,
    };
    assert(h@ =~= haystack(label_lower@, opt));
    let hv = chars_of(h.as_str());
    contains_chars(&hv, &qv)
}

/// The export format an already lower-cased preset name stands for (see
/// [`export_format_for`]).
pub fn export_format_for_lowercase(p: &str) -> (r: String)
    ensures
        r@ == export_format_for(p@),
{
    let f = if str_eq(p, "h264") || str_eq(p, "h.264") || str_eq(p, "x264") {
        "avformat-x264"
    } else if str_eq(p, "h265") || str_eq(p, "h.265") || str_eq(p, "hevc") || str_eq(p, "x265") {
        "avformat-x265"
    } else if str_eq(p, "prores") || str_eq(p, "prores_ks") || str_eq(p, "prores422") || str_eq(
        p,
        "prores_4444",
    ) || str_eq(p, "prores4444") {
        "avformat-prores_ks"
    } else if str_eq(p, "vp9") || str_eq(p, "webm") {
        "avformat-libvpx-vp9"
    } else {
        p
    };
    String::from_str(f)
}

/// The history label of a batch of `commands`.
pub fn batch_label_of(commands: &Vec<EditCommand>) -> (s: String)
    ensures
        s@ == batch_label(commands@),
{
    if commands.len() == 1 {
        String::from_str(commands[0].label())
    } else {
        decimal_string(commands.len() as u64).concat(" edits")
    }
}

impl Engine {
    /// The engine is in the state its operations keep.
    pub open spec fn wf(&self) -> bool {
        engine_wf(self@)
    }

    /// An engine editing a new, empty project.
    pub fn new(name: String, canvas: Canvas, frame_rate: Rational) -> (e: Self)
        ensures
            e.wf(),
            e@.project.name == name,
            e@.project.canvas == canvas,
            e@.project.frame_rate == frame_rate,
            e@.project.assets@.len() == 0,
            e@.project.timeline.is_empty_at(frame_rate),
            e@.project.timeline.index_fresh(),
            e@.project.multicam_clips@.len() == 0,
            e@.project.plugins@.len() == 0,
            e@.history.undo.len() == 0,
            e@.history.redo.len() == 0,
            e@.snapshots.len() == 0,
    {
        Self::with_project(Project::new(name, canvas, frame_rate))
    }

    /// An engine editing `project`, with an empty history.
    pub fn with_project(project: Project) -> (e: Self)
        ensures
            e.wf(),
            e@.project == project,
            e@.history.undo.len() == 0,
            e@.history.redo.len() == 0,
            e@.snapshots.len() == 0,
    {
        let e = Engine { project, history: EditHistory::new(DEFAULT_HISTORY_LIMIT), snapshots: Vec::new() };
        assert(e@.snapshots =~= Seq::<(Seq<char>, Project)>::empty());
        e
    }

    /// The project being edited.
    pub fn project(&self) -> (p: &Project)
        ensures
            *p == self@.project,
    {
        &self.project
    }

    /// The project being edited, for changes outside the history.
    pub fn project_mut(&mut self) -> (p: &mut Project)
        ensures
            *p == old(self)@.project,
            final(self)@ == (EngineModel { project: *final(p), ..old(self)@ }),
    {
        &mut self.project
    }

    /// The undo/redo history.
    pub fn history(&self) -> (h: &EditHistory)
        ensures
            h@ == self@.history,
    {
        &self.history
    }

    /// Apply an edit command, recording the project before it for undo.
    /// `discovered` is what a rescan of the plugin directory found (used by
    /// `RefreshPluginCache`).  On a failure the record stays and the project
    /// is what the command's outcome says: a single command keeps what it
    /// changed before it failed, a batch puts the project back as it was.
    pub fn apply(&mut self, cmd: EditCommand, discovered: &Vec<PluginManifest>) -> (r: Result<(), EngineError>)
        requires
            old(self).wf(),
            applicable(old(self)@.project, cmd, discovered@),
        ensures
            exists|edited: Project|
                #![trigger outcome(old(self)@.project, cmd, discovered@, edited, r)]
                outcome(old(self)@.project, cmd, discovered@, edited, r) && recorded_edit(
                    old(self)@,
                    label_of(cmd),
                    edited,
                    r,
                    final(self)@,
                ),
            final(self).wf(),
    {
        let ghost pre = self.project;
        let label = String::from_str(cmd.label());
        let copy = self.project.deep_copy();
        self.history.record_labeled(label.as_str(), copy);
        assert(self.project == pre);
        let r = apply_to_model(&mut self.project, cmd, discovered);
        let ghost edited = self.project;
        assert(outcome(pre, cmd, discovered@, edited, r));
        match r {
            Ok(()) => {
                self.finish_edit();
            },
            Err(_) => {},
        }
        assert(outcome(old(self)@.project, cmd, discovered@, edited, r));
        r
    }

    /// Apply `commands` in order as one undo step.  The batch is all or
    /// nothing: the first failure stops it, its error is returned and the
    /// project is put back as it was before the batch (see
    /// [`batch_outcome`]); on success the history records one edit.
    pub fn apply_batch(&mut self, commands: Vec<EditCommand>, discovered: &Vec<PluginManifest>) -> (r: Result<
        (),
        EngineError,
    >)
        requires
            old(self).wf(),
            batch_applicable(old(self)@.project, commands@, discovered@),
        ensures
            exists|edited: Project|
                #![trigger batch_outcome(old(self)@.project, commands@, discovered@, edited, r)]
                batch_outcome(old(self)@.project, commands@, discovered@, edited, r) && recorded_edit(
                    old(self)@,
                    batch_label(commands@),
                    edited,
                    r,
                    final(self)@,
                ),
            final(self).wf(),
    {
        let label = batch_label_of(&commands);
        let copy = self.project.deep_copy();
        self.history.record_labeled(label.as_str(), copy);
        let ghost cmds = commands@;
        let r = apply_commands(&mut self.project, commands, discovered);
        let ghost edited = self.project;
        match r {
            Ok(()) => {
                self.finish_edit();
            },
            Err(_) => {},
        }
        assert(batch_outcome(old(self)@.project, cmds, discovered@, edited, r));
        r
    }

    /// After a successful edit: rebuild the lookup index and stamp the time.
    fn finish_edit(&mut self)
        ensures
            finished(old(self)@.project, final(self)@.project),
            final(self)@.history == old(self)@.history,
            final(self)@.snapshots == old(self)@.snapshots,
    {
        self.project.timeline.rebuild_index();
        self.project.updated_at = now_secs();
    }

    /// Undo the last edit: the project goes back to its state before that
    /// edit, and the current state is kept for redo.  Returns the restored
    /// project, or `None` when there is nothing to undo.
    pub fn undo(&mut self) -> (r: Option<&Project>)
        ensures
            (r is Some) == (old(self)@.history.undo.len() > 0),
            r is Some ==> (final(self)@.history, Some(final(self)@.project)) == spec_undo(
                old(self)@.history,
                old(self)@.project,
            ) && *r->0 == final(self)@.project,
            r is None ==> final(self)@ == old(self)@,
            final(self)@.snapshots == old(self)@.snapshots,
            old(self).wf() ==> final(self).wf(),
    {
        if self.history.undo_into(&mut self.project) {
            Some(&self.project)
        } else {
            None
        }
    }

    /// Redo the last undone edit (the mirror image of [`Engine::undo`]).
    pub fn redo(&mut self) -> (r: Option<&Project>)
        ensures
            (r is Some) == (old(self)@.history.redo.len() > 0),
            r is Some ==> (final(self)@.history, Some(final(self)@.project)) == spec_redo(
                old(self)@.history,
                old(self)@.project,
            ) && *r->0 == final(self)@.project,
            r is None ==> final(self)@ == old(self)@,
            final(self)@.snapshots == old(self)@.snapshots,
            old(self).wf() ==> final(self).wf(),
    {
        if self.history.redo_into(&mut self.project) {
            Some(&self.project)
        } else {
            None
        }
    }

    pub fn can_undo(&self) -> (b: bool)
        ensures
            b == (self@.history.undo.len() > 0),
    {
        self.history.can_undo()
    }

    pub fn can_redo(&self) -> (b: bool)
        ensures
            b == (self@.history.redo.len() > 0),
    {
        self.history.can_redo()
    }

    /// Label of the edit that undo would revert.
    pub fn undo_label(&self) -> (r: Option<String>)
        ensures
            r matches Some(s) ==> self@.history.undo.len() > 0 && s@ == self@.history.undo.last().0,
            r is None <==> self@.history.undo.len() == 0,
    {
        match self.history.undo_label() {
            Some(s) => Some(String::from_str(s)),
            None => None,
        }
    }

    /// Label of the edit that redo would re-apply.
    pub fn redo_label(&self) -> (r: Option<String>)
        ensures
            r matches Some(s) ==> self@.history.redo.len() > 0 && s@ == self@.history.redo.last().0,
            r is None <==> self@.history.redo.len() == 0,
    {
        match self.history.redo_label() {
            Some(s) => Some(String::from_str(s)),
            None => None,
        }
    }
    /// Save a copy of the current project as a snapshot named `name`,
    /// replacing an older one of that name.
    pub fn save_snapshot(&mut self, name: String)
        ensures
            final(self)@.snapshots.len() > 0,
            final(self)@.snapshots == spec_save(old(self)@.snapshots, name@, final(self)@.snapshots.last().1),
            Project::same(old(self)@.project, final(self)@.snapshots.last().1),
            final(self)@.project == old(self)@.project,
            final(self)@.history == old(self)@.history,
            old(self).wf() ==> final(self).wf(),
    {
        let ghost pre = named_view(self.snapshots@);
        let mut all: Vec<(String, Project)> = Vec::new();
        std::mem::swap(&mut all, &mut self.snapshots);
        let mut kept = without_named(all, name.as_str());
        let ghost filtered = named_view(kept@);
        let copy = self.project.deep_copy();
        let ghost entry = (name@, copy);
        kept.push((name, copy));
        assert(named_view(kept@) =~= filtered.push(entry));
        if kept.len() > MAX_SNAPSHOTS {
            let ghost pushed = named_view(kept@);
            kept.remove(0);
            assert(named_view(kept@) =~= pushed.drop_first());
        }
        self.snapshots = kept;
        proof {
            lemma_filter_len(pre, name@);
        }
    }

    /// Restore the first snapshot named `name`: it becomes the project and
    /// leaves the list.  Returns whether there was one.
    pub fn restore_snapshot(&mut self, name: &str) -> (b: bool)
        ensures
            b == (spec_restore(old(self)@.snapshots, name@) is Some),
            b ==> (final(self)@.project, final(self)@.snapshots) == spec_restore(
                old(self)@.snapshots,
                name@,
            )->0,
            !b ==> final(self)@ == old(self)@,
            final(self)@.history == old(self)@.history,
            old(self).wf() ==> final(self).wf(),
    {
        match find_named(&self.snapshots, name) {
            Some(i) => {
                let ghost pre = named_view(self.snapshots@);
                let (_, project) = self.snapshots.remove(i);
                assert(named_view(self.snapshots@) =~= pre.remove(i as int));
                self.project = project;
                true
            },
            None => false,
        }
    }

    /// The snapshot names, oldest first.
    pub fn snapshot_names(&self) -> (r: Vec<String>)
        ensures
            r@.map_values(|s: String| s@) == snapshot_names_of(self@.snapshots),
    {
        let mut r: Vec<String> = Vec::new();
        let mut i: usize = 0;
        while i < self.snapshots.len()
            invariant
                0 <= i <= self.snapshots@.len(),
                r@.len() == i,
                forall|j: int| 0 <= j < i ==> r@[j]@ == self.snapshots@[j].0@,
            decreases self.snapshots@.len() - i,
        {
            r.push(self.snapshots[i].0.clone());
            i = i + 1;
        }
        assert(r@.map_values(|s: String| s@) =~= snapshot_names_of(self@.snapshots));
        r
    }

    /// An engine for a project loaded from disk, with an empty history: the
    /// lookup index is rebuilt, the playhead kept inside the timeline, and
    /// the project repaired (see [`repaired`]), after which no two tracks
    /// share an id.
    pub fn from_loaded(project: Project) -> (e: Self)
        requires
            project.timeline.last_ends_fit(),
            project.timeline.tracks@.len() < 0x4000_0000_0000_0000,
            repairs_fit(repair_plan(project)),
        ensures
            e.wf(),
            ids_distinct(e@.project.timeline.tracks@),
            e@.history.undo.len() == 0,
            e@.history.redo.len() == 0,
            e@.snapshots.len() == 0,
            exists|ix: Project|
                #![trigger reindexed(project, ix)]
                reindexed(project, ix) && repaired(
                    Project {
                        timeline: Timeline {
                            playhead: clamped_playhead(project.timeline.playhead, total_of(project.timeline)),
                            ..ix.timeline
                        },
                        ..ix
                    },
                    e@.project,
                ),
    {
        let mut e = Self::with_project(project);
        e.project.timeline.rebuild_index();
        let ghost ix = e.project;
        assert(reindexed(project, ix));
        e.clamp_loaded_playhead();
        proof {
            lemma_plan_same_tracks(project, e.project, project.assets@);
        }
        e.repair_loaded_project();
        e
    }

    /// Repair the project after loading it (see [`repaired`]).
    pub fn repair_loaded_project(&mut self)
        requires
            old(self)@.project.timeline.last_ends_fit(),
            old(self)@.project.timeline.tracks@.len() < 0x4000_0000_0000_0000,
            repairs_fit(repair_plan(old(self)@.project)),
        ensures
            repaired(old(self)@.project, final(self)@.project),
            ids_distinct(final(self)@.project.timeline.tracks@),
            final(self)@.history == old(self)@.history,
            final(self)@.snapshots == old(self)@.snapshots,
    {
        repair_project(&mut self.project);
    }

    /// Add a probed asset to the media pool; returns its id.  (Probing the
    /// file and opening it for decoding are up to the caller.)
    pub fn import_asset(&mut self, asset: Asset) -> (id: AssetId)
        ensures
            id == asset.spec_id(),
            final(self)@ == (EngineModel {
                project: Project { assets: final(self)@.project.assets, ..old(self)@.project },
                ..old(self)@
            }),
            final(self)@.project.assets@ == old(self)@.project.assets@.push(asset),
    {
        let id = asset.id();
        self.project.add_asset(asset);
        id
    }

    /// Point asset `asset_id` at a new file path; an unknown asset is an
    /// error.  (Reopening the media is up to the caller.)
    pub fn relink_asset(&mut self, asset_id: AssetId, new_path: String) -> (r: Result<(), EngineError>)
        ensures
            match asset_pos(old(self)@.project.assets@, asset_id) {
                Some(i) => r is Ok && final(self)@ == (EngineModel {
                    project: Project {
                        assets: final(self)@.project.assets,
                        ..old(self)@.project
                    },
                    ..old(self)@
                }) && final(self)@.project.assets@ == old(self)@.project.assets@.update(
                    i,
                    old(self)@.project.assets@[i].with_path(new_path),
                ),
                None => r == Err::<(), EngineError>(EngineError::Generic("asset not found")) && final(self)@
                    == old(self)@,
            },
    {
        match self.project.asset_index(asset_id) {
            Some(i) => {
                self.project.assets[i].set_path(new_path);
                assert(self.project.assets@ =~= old(self).project.assets@.update(
                    i as int,
                    old(self).project.assets@[i as int].with_path(new_path),
                ));
                Ok(())
            },
            None => Err(EngineError::Generic("asset not found")),
        }
    }

    /// The gaps on track `track_id` (none when there is no such track).
    pub fn find_gaps(&self, track_id: TrackId) -> (r: Vec<(i64, i64)>)
        requires
            match self@.project.timeline.track_slot(track_id) {
                Some(t) => clips_measurable(self@.project.timeline.tracks@[t].clips@),
                None => true,
            },
        ensures
            match self@.project.timeline.track_slot(track_id) {
                Some(t) => r@ == gaps_from(self@.project.timeline.tracks@[t].clips@, 0),
                None => r@.len() == 0,
            },
    {
        self.project.timeline.find_gaps(track_id)
    }

    /// The total frame count of the timeline.
    pub fn total_frames(&self) -> (n: i64)
        requires
            self@.project.timeline.last_ends_fit(),
        ensures
            n == total_of(self@.project.timeline),
    {
        self.project.timeline.duration()
    }

    /// The export format a preset name stands for, matched without regard
    /// to case; an unknown name is passed on lower-cased.
    pub fn resolve_export_format(preset: &str) -> (r: String)
        ensures
            r@ == export_format_for(lowercase(preset@)),
    {
        let lower = to_lower(preset);
        export_format_for_lowercase(lower.as_str())
    }

    /// Keep the playhead of a loaded project inside the timeline: a saved
    /// playhead can sit exactly at the end, past the last frame shown.
    pub fn clamp_loaded_playhead(&mut self)
        requires
            old(self)@.project.timeline.last_ends_fit(),
        ensures
            final(self)@ == (EngineModel {
                project: Project {
                    timeline: Timeline {
                        playhead: clamped_playhead(
                            old(self)@.project.timeline.playhead,
                            total_of(old(self)@.project.timeline),
                        ),
                        ..old(self)@.project.timeline
                    },
                    ..old(self)@.project
                },
                ..old(self)@
            }),
    {
        let d = self.project.timeline.duration();
        let max_frame: i64 = if d > 1 { d - 1 } else { 0 };
        let p = self.project.timeline.playhead;
        self.project.timeline.playhead = if p < 0 {
            0
        } else if p > max_frame {
            max_frame
        } else {
            p
        };
    }

    /// Clips whose label (lower-cased), asset description or asset labels
    /// contain `query` lower-cased, and that last at least `min_duration`
    /// frames when it is given; track by track, in clip order.
    pub fn search_clips(&self, query: &str, min_duration: Option<i64>) -> (r: Vec<ClipMatch>)
        ensures
            r@.map_values(|m: ClipMatch| match_view(m)) == track_hits(
                self@.project.timeline.tracks@,
                self@.project.assets@,
                lowercase(query@),
                min_duration,
            ),
    {
        let q = to_lower(query);
        let tracks = &self.project.timeline.tracks;
        let ghost assets = self.project.assets@;
        let ghost qs = q@;
        let mut results: Vec<ClipMatch> = Vec::new();
        let mut i: usize = 0;
        while i < tracks.len()
            invariant
                0 <= i <= tracks@.len(),
                *tracks == self.project.timeline.tracks,
                assets == self.project.assets@,
                qs == q@,
                results@.map_values(|m: ClipMatch| match_view(m)) == track_hits(
                    tracks@.take(i as int),
                    assets,
                    qs,
                    min_duration,
                ),
            decreases tracks@.len() - i,
        {
            let clips = &tracks[i].clips;
            let ghost base = results@.map_values(|m: ClipMatch| match_view(m));
            let mut k: usize = 0;
            proof {
                assert(clips@.take(0) =~= Seq::<Clip>::empty());
                assert(base + clip_hits(clips@.take(0), assets, qs, min_duration) =~= base);
            }
            while k < clips.len()
                invariant
                    0 <= k <= clips@.len(),
                    assets == self.project.assets@,
                    qs == q@,
                    results@.map_values(|m: ClipMatch| match_view(m)) == base + clip_hits(
                        clips@.take(k as int),
                        assets,
                        qs,
                        min_duration,
                    ),
                decreases clips@.len() - k,
            {
                let c = &clips[k];
                proof {
                    assert(clips@.take(k + 1).drop_last() =~= clips@.take(k as int));
                    assert(clips@.take(k + 1).last() == clips@[k as int]);
                }
                let long_enough = match min_duration {
                    Some(m) => c.duration() >= m,
                    None => true,
                };
                if long_enough {
                    let label_lower = to_lower(c.label.as_str());
                    let asset = self.project.asset(c.asset_id);
                    proof {
                        let opt = match asset {
                            Some(a) => Some(*a),
                            None => None::<Asset>,
                        };
                        assert(opt == asset_of(assets, c.asset_id));
                    }
                    if text_match(label_lower.as_str(), asset, q.as_str()) {
                        let ghost before = results@.map_values(|m: ClipMatch| match_view(m));
                        results.push(ClipMatch { clip_id: c.id, label: c.label.clone(), asset_id: c.asset_id });
                        proof {
                            assert(results@.map_values(|m: ClipMatch| match_view(m)) =~= before.push(
                                (c.id, c.label@, c.asset_id),
                            ));
                            assert(before.push((c.id, c.label@, c.asset_id)) =~= base + clip_hits(
                                clips@.take(k + 1),
                                assets,
                                qs,
                                min_duration,
                            ));
                        }
                    }
                }
                k = k + 1;
            }
            proof {
                assert(clips@.take(k as int) =~= clips@);
                assert(tracks@.take(i + 1).drop_last() =~= tracks@.take(i as int));
                assert(tracks@.take(i + 1).last() == tracks@[i as int]);
            }
            i = i + 1;
        }
        proof {
            assert(tracks@.take(i as int) =~= tracks@);
        }
        results
    }
}

/// Undoing an edit made through the engine brings back a copy of the project
/// as it was before the edit, and leaves that edit, and only it, to redo.
pub proof fn lemma_undo_reverts_edit(
    pre: EngineModel,
    label: Seq<char>,
    edited: Project,
    r: Result<(), EngineError>,
    post: EngineModel,
)
    requires
        engine_wf(pre),
        recorded_edit(pre, label, edited, r, post),
    ensures
        spec_undo(post.history, post.project).1 matches Some(restored) && Project::same(pre.project, restored),
        spec_undo(post.history, post.project).0.redo == seq![(label, post.project)],
{
    let c = post.history.undo.last().1;
    crate::history::lemma_undo_after_record(pre.history, label, c, post.project);
    assert(spec_undo(post.history, post.project).0.redo =~= seq![(label, post.project)]);
}

/// After saving under `name`, exactly one snapshot carries that name: the
/// one just saved, which is last.
pub proof fn lemma_saved_name_unique(snaps: Seq<(Seq<char>, Project)>, name: Seq<char>, p: Project)
    ensures
        spec_save(snaps, name, p).last() == (name, p),
        forall|i: int|
            0 <= i < spec_save(snaps, name, p).len() - 1 ==> #[trigger] spec_save(snaps, name, p)[i].0 != name,
{
    let kept = without_name(snaps, name);
    let pushed = kept.push((name, p));
    assert forall|i: int| 0 <= i < kept.len() implies kept[i].0 != name by {
        assert(kept.contains(kept[i]));
    }
    let saved = spec_save(snaps, name, p);
    assert forall|i: int| 0 <= i < saved.len() - 1 implies #[trigger] saved[i].0 != name by {
        if pushed.len() > MAX_SNAPSHOTS {
            assert(saved[i] == pushed[i + 1]);
            assert(pushed[i + 1] == kept[i + 1]);
        } else {
            assert(saved[i] == kept[i]);
        }
    }
}

/// Restoring a name right after saving under it gives back the project
/// that was saved.
pub proof fn lemma_restore_after_save(snaps: Seq<(Seq<char>, Project)>, name: Seq<char>, p: Project)
    ensures
        spec_restore(spec_save(snaps, name, p), name) matches Some((q, _)) && q == p,
{
    lemma_saved_name_unique(snaps, name, p);
    let saved = spec_save(snaps, name, p);
    let last = saved.len() - 1;
    assert(saved[last].0 == name);
    let k = snapshot_pos(saved, name)->0;
    if k < last {
        assert(saved[k].0 != name);
    }
    if last < k {
        assert(saved[last].0 != name);
    }
}

/// Filtering never lengthens a sequence.
proof fn lemma_filter_len(s: Seq<(Seq<char>, Project)>, name: Seq<char>)
    ensures
        without_name(s, name).len() <= s.len(),
    decreases s.len(),
{
    reveal(Seq::filter);
    if s.len() > 0 {
        lemma_filter_len(s.drop_last(), name);
    }
}

} // verus!
