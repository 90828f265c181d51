//! Run-time checks that an edit command can be applied to a project
//! without overflowing or panicking (see [`applicable`]).

use vstd::prelude::*;
use crate::apply::{EngineError, clips_replaced, find_clip_slot, find_track, track_at, write_slot};
use crate::clip::Clip;
use crate::error::ModelError;
use crate::ids::{ClipId, TrackId};
use crate::num::scaled_round_exec;
use crate::commands::EditCommand;
use crate::edit::{applicable, batch_applicable, outcome, step_fits};
use crate::multicam_edit::multicam_fits;
use crate::plugin::PluginManifest;
use crate::project::Project;
use crate::resolve::clips_are_measurable;
use crate::restructure::{
    clips_at, find_owner, inserted_into, lift, insertable, is_left_half, is_right_half, locate, located, owner_found,
    ripple_fits, structure_fits,
};
use crate::timeline::{Timeline, first_track_pos};
use crate::track::{Track, TrackKind, clips_measurable, insert_clip_outcome, insert_pos};

verus! {

/// A single command that fits every project: all but those that work on a
/// clip found in the project (insert, remove, ripple delete, move, slip,
/// split, and multicam creation and collapse), a trim only when its new
/// length fits in `i64`, and no batch.
pub open spec fn step_fits_anywhere(cmd: EditCommand) -> bool {
    match cmd {
        EditCommand::TrimClip { new_source_range, .. } => i64::MIN <= new_source_range.end
            - new_source_range.start <= i64::MAX,
        EditCommand::InsertClip { .. } => false,
        EditCommand::RemoveClip { .. } => false,
        EditCommand::RippleDelete { .. } => false,
        EditCommand::MoveClip { .. } => false,
        EditCommand::SlipClip { .. } => false,
        EditCommand::SplitClip { .. } => false,
        EditCommand::CreateMulticam { .. } => false,
        EditCommand::CollapseMulticam { .. } => false,
        EditCommand::Batch { .. } => false,
        _ => true,
    }
}

/// A command that fits every project: a single one (see
/// [`step_fits_anywhere`]) or a batch of such single commands.
pub open spec fn fits_anywhere(cmd: EditCommand) -> bool {
    match cmd {
        EditCommand::Batch { commands, .. } => forall|k: int|
            0 <= k < commands@.len() ==> #[trigger] step_fits_anywhere(commands@[k]),
        _ => step_fits_anywhere(cmd),
    }
}

/// A single command that fits every project can be applied to `pre`.
proof fn lemma_step_fits_anywhere(pre: Project, cmd: EditCommand, discovered: Seq<PluginManifest>)
    requires
        step_fits_anywhere(cmd),
    ensures
        applicable(pre, cmd, discovered),
{
    reveal(step_fits);
}

/// A command that fits every project can be applied to `pre`.
pub proof fn lemma_fits_anywhere(pre: Project, cmd: EditCommand, discovered: Seq<PluginManifest>)
    requires
        fits_anywhere(cmd),
    ensures
        applicable(pre, cmd, discovered),
{
    match cmd {
        EditCommand::Batch { commands, .. } => {
            let cmds = commands@;
            assert forall|states: Seq<Project>, n: int|
                #![trigger states[n]]
                0 <= n < cmds.len() && states.len() == n + 1 && states[0] == pre && (forall|j: int|
                    0 <= j < n ==> outcome(#[trigger] states[j], cmds[j], discovered, states[j + 1], Ok(())))
                    implies applicable(states[n], cmds[n], discovered) by {
                assert(step_fits_anywhere(cmds[n]));
                lemma_step_fits_anywhere(states[n], cmds[n], discovered);
            }
            assert(batch_applicable(pre, cmds, discovered));
        },
        _ => {
            lemma_step_fits_anywhere(pre, cmd, discovered);
        },
    }
}

/// Whether a single command fits every project (see
/// [`step_fits_anywhere`]).
fn step_fits_anywhere_check(cmd: &EditCommand) -> (b: bool)
    ensures
        b == step_fits_anywhere(*cmd),
{
    match cmd {
        EditCommand::TrimClip { new_source_range, .. } => new_source_range.end.checked_sub(
            new_source_range.start,
        ).is_some(),
        EditCommand::InsertClip { .. } | EditCommand::RemoveClip { .. } | EditCommand::RippleDelete { .. }
        | EditCommand::MoveClip { .. } | EditCommand::SlipClip { .. } | EditCommand::SplitClip { .. }
        | EditCommand::CreateMulticam { .. } | EditCommand::CollapseMulticam { .. } | EditCommand::Batch {
            ..
        } => false,
        _ => true,
    }
}

/// Whether `cmd` fits every project (see [`fits_anywhere`]).
pub fn fits_anywhere_check(cmd: &EditCommand) -> (b: bool)
    ensures
        b == fits_anywhere(*cmd),
{
    match cmd {
        EditCommand::Batch { commands, .. } => {
            let mut k: usize = 0;
            while k < commands.len()
                invariant
                    *cmd is Batch,
                    (*cmd)->commands@ == commands@,
                    0 <= k <= commands@.len(),
                    forall|j: int| 0 <= j < k ==> #[trigger] step_fits_anywhere(commands@[j]),
                decreases commands@.len() - k,
            {
                if !step_fits_anywhere_check(&commands[k]) {
                    assert(!step_fits_anywhere(commands@[k as int]));
                    return false;
                }
                k = k + 1;
            }
            true
        },
        _ => step_fits_anywhere_check(cmd),
    }
}

/// Every track of `p` other than an audio track has only clips whose span
/// can be computed (see [`clips_measurable`]).
pub open spec fn non_audio_measurable(p: Project) -> bool {
    forall|t: int|
        0 <= t < p.timeline.tracks@.len() && #[trigger] p.timeline.tracks@[t].kind != TrackKind::Audio
            ==> clips_measurable(p.timeline.tracks@[t].clips@)
}

/// Removing a clip keeps the rest measurable.
proof fn lemma_remove_measurable(s: Seq<Clip>, i: int)
    requires
        clips_measurable(s),
        0 <= i < s.len(),
    ensures
        clips_measurable(s.remove(i)),
{
    let r = s.remove(i);
    assert forall|m: int| 0 <= m < r.len() implies #[trigger] r[m].end_fits() && r[m].dur() >= 0 by {
        if m < i {
            assert(r[m] == s[m]);
            assert(s[m].end_fits() && s[m].dur() >= 0);
        } else {
            assert(r[m] == s[m + 1]);
            assert(s[m + 1].end_fits() && s[m + 1].dur() >= 0);
        }
    }
}

/// Inserting a measurable clip keeps the clips measurable.
proof fn lemma_insert_measurable(s: Seq<Clip>, i: int, c: Clip)
    requires
        clips_measurable(s),
        0 <= i <= s.len(),
        c.end_fits() && c.dur() >= 0,
    ensures
        clips_measurable(s.insert(i, c)),
{
    let r = s.insert(i, c);
    assert forall|m: int| 0 <= m < r.len() implies #[trigger] r[m].end_fits() && r[m].dur() >= 0 by {
        if m < i {
            assert(r[m] == s[m]);
            assert(s[m].end_fits() && s[m].dur() >= 0);
        } else if m > i {
            let k = m - 1;
            assert(0 <= k < s.len());
            assert(r[m] == s[k]);
            assert(s[k].end_fits());
            assert(s[k].dur() >= 0);
        }
    }
}

/// Where a clip starting at `t` is inserted lies inside the clips (the
/// clips before `i` all start at or before `t`).
proof fn lemma_insert_pos_range(clips: Seq<Clip>, t: int, i: int)
    requires
        0 <= i <= clips.len(),
        forall|j: int| 0 <= j < i ==> clips[j].timeline_in <= t,
    ensures
        0 <= insert_pos(clips, t) <= clips.len(),
    decreases clips.len() - i,
{
    if i < clips.len() {
        if clips[i].timeline_in > t {
            let k = insert_pos(clips, t);
            assert(0 <= k < clips.len() && clips[k].timeline_in > t && forall|j: int|
                0 <= j < k ==> clips[j].timeline_in <= t);
        } else {
            lemma_insert_pos_range(clips, t, i + 1);
        }
    }
}

/// The first track with id `id` lies inside the tracks (the tracks before
/// `i` all have other ids).
proof fn lemma_first_track_pos_range(tracks: Seq<Track>, id: TrackId, i: int)
    requires
        0 <= i <= tracks.len(),
        forall|j: int| 0 <= j < i ==> tracks[j].id != id,
    ensures
        first_track_pos(tracks, id) matches Some(k) ==> 0 <= k < tracks.len(),
    decreases tracks.len() - i,
{
    if i < tracks.len() {
        if tracks[i].id == id {
            let k = first_track_pos(tracks, id)->0;
            assert(0 <= k < tracks.len() && tracks[k].id == id && forall|j: int| 0 <= j < k ==> tracks[j].id != id);
        } else {
            lemma_first_track_pos_range(tracks, id, i + 1);
        }
    }
}

/// A track found by id is one of the tracks.
proof fn lemma_track_at_in_range(tl: Timeline, id: TrackId)
    ensures
        track_at(tl, id) matches Some(t) ==> 0 <= t < tl.tracks@.len(),
{
    reveal(track_at);
    lemma_first_track_pos_range(tl.tracks@, id, 0);
}

/// Whether every non-audio track of `p` is measurable (see
/// [`non_audio_measurable`]).
fn non_audio_measurable_check(p: &Project) -> (b: bool)
    ensures
        b == non_audio_measurable(*p),
{
    let tracks = &p.timeline.tracks;
    let mut t: usize = 0;
    while t < tracks.len()
        invariant
            *tracks == p.timeline.tracks,
            0 <= t <= tracks@.len(),
            forall|u: int|
                0 <= u < t && #[trigger] tracks@[u].kind != TrackKind::Audio ==> clips_measurable(tracks@[u].clips@),
        decreases tracks@.len() - t,
    {
        if tracks[t].kind != TrackKind::Audio && !clips_are_measurable(&tracks[t].clips) {
            assert(tracks@[t as int].kind != TrackKind::Audio);
            return false;
        }
        t = t + 1;
    }
    true
}

/// Whether the clip found by `clip_id` can be slipped by `delta`.
fn slip_fits(p: &Project, clip_id: ClipId, delta: i64) -> (b: bool)
    ensures
        b == match write_slot(p.timeline, clip_id) {
            Some((t, k)) => i64::MIN <= p.timeline.tracks@[t].clips@[k].source_in + delta <= i64::MAX,
            None => true,
        },
{
    match find_clip_slot(&p.timeline, clip_id) {
        Some((t, k)) => p.timeline.tracks[t].clips[k].source_in.checked_add(delta).is_some(),
        None => true,
    }
}

/// Whether the owner the clip index names for `clip_id` is among the
/// tracks (see [`owner_found`]).
fn owner_found_check(p: &Project, clip_id: ClipId) -> (b: bool)
    ensures
        b == owner_found(*p, clip_id),
{
    match find_owner(&p.timeline, clip_id) {
        Some(tid) => find_track(&p.timeline, tid).is_some(),
        None => true,
    }
}

/// Whether inserting `source_in..source_out` at `position` on the track
/// `track_id` fits (see [`structure_fits`]).
fn insert_fits(p: &Project, track_id: TrackId, position: i64, source_in: i64, source_out: i64) -> (b: bool)
    ensures
        b ==> i64::MIN <= source_out - source_in <= i64::MAX && (track_at(p.timeline, track_id) matches Some(t) ==> {
            &&& source_out - source_in >= 0
            &&& i64::MIN <= position + (source_out - source_in) <= i64::MAX
            &&& p.timeline.tracks@[t].kind != TrackKind::Audio ==> clips_measurable(clips_at(*p, t))
        }),
{
    let len = match source_out.checked_sub(source_in) {
        Some(l) => l,
        None => {
            return false;
        },
    };
    match find_track(&p.timeline, track_id) {
        Some(t) => len >= 0 && position.checked_add(len).is_some() && (p.timeline.tracks[t].kind == TrackKind::Audio
            || clips_are_measurable(&p.timeline.tracks[t].clips)),
        None => true,
    }
}

/// Whether deleting the clip `clip_id` and closing its gap fits.
fn ripple_delete_fits(p: &Project, clip_id: ClipId) -> (b: bool)
    ensures
        b ==> owner_found(*p, clip_id) && (located(*p, clip_id) matches Some((t, i)) ==> ripple_fits(
            clips_at(*p, t).remove(i),
            clips_at(*p, t)[i].timeline_in,
            clips_at(*p, t)[i].dur(),
        )),
{
    if !owner_found_check(p, clip_id) {
        return false;
    }
    match locate(p, clip_id) {
        Some((t, i)) => {
            let clips = &p.timeline.tracks[t].clips;
            let after = clips[i].timeline_in;
            let gap = clips[i].duration();
            let mut j: usize = 0;
            while j < clips.len()
                invariant
                    0 <= j <= clips@.len(),
                    forall|m: int|
                        0 <= m < j && #[trigger] clips@[m].timeline_in > after ==> i64::MIN <= clips@[m].timeline_in - gap
                            <= i64::MAX,
                decreases clips@.len() - j,
            {
                if clips[j].timeline_in > after && clips[j].timeline_in.checked_sub(gap).is_none() {
                    return false;
                }
                j = j + 1;
            }
            proof {
                let s = clips@.remove(i as int);
                assert forall|m: int| 0 <= m < s.len() && #[trigger] s[m].timeline_in > after implies i64::MIN
                    <= s[m].timeline_in - gap <= i64::MAX by {
                    if m < i {
                        assert(s[m] == clips@[m]);
                    } else {
                        assert(s[m] == clips@[m + 1]);
                    }
                }
            }
            true
        },
        None => true,
    }
}

/// Whether collapsing the multicam clip `clip_id` fits (see
/// [`multicam_fits`]).
fn collapse_fits(p: &Project, clip_id: ClipId) -> (b: bool)
    ensures
        b ==> match located(*p, clip_id) {
            Some((t, i)) => {
                &&& clips_at(*p, t)[i].end_fits() && clips_at(*p, t)[i].dur() >= 0
                &&& p.timeline.tracks@[t].kind != TrackKind::Audio ==> clips_measurable(clips_at(*p, t).remove(i))
            },
            None => true,
        },
{
    match locate(p, clip_id) {
        Some((t, i)) => {
            let clips = &p.timeline.tracks[t].clips;
            let d = clips[i].duration();
            if d < 0 || clips[i].timeline_in.checked_add(d).is_none() {
                return false;
            }
            if p.timeline.tracks[t].kind != TrackKind::Audio {
                if !clips_are_measurable(clips) {
                    return false;
                }
                proof {
                    lemma_remove_measurable(clips@, i as int);
                }
            }
            true
        },
        None => true,
    }
}

/// Whether moving the clip `clip_id` to `new_position` on `new_track_id`
/// fits: besides the new end, it asks every non-audio track to be
/// measurable.
fn move_fits(p: &Project, clip_id: ClipId, new_track_id: TrackId, new_position: i64) -> (b: bool)
    ensures
        b ==> structure_fits(*p, EditCommand::MoveClip { clip_id, new_track_id, new_position }),
{
    if !owner_found_check(p, clip_id) || !non_audio_measurable_check(p) {
        return false;
    }
    match locate(p, clip_id) {
        Some((t0, i)) => {
            let d = p.timeline.tracks[t0].clips[i].duration();
            if d < 0 || new_position.checked_add(d).is_none() {
                return false;
            }
            proof {
                let orig = clips_at(*p, t0 as int)[i as int];
                let c = Clip { timeline_in: new_position, ..orig };
                assert(c.dur() == orig.dur());
                assert forall|mid: Project|
                    #[trigger] clips_replaced(*p, mid, t0 as int, clips_at(*p, t0 as int).remove(i as int)) implies (
                    track_at(mid.timeline, new_track_id) matches Some(t1) ==> insertable(mid, t1, c)) by {
                    lemma_track_at_in_range(mid.timeline, new_track_id);
                    if let Some(t1) = track_at(mid.timeline, new_track_id) {
                        if t1 == t0 {
                            if mid.timeline.tracks@[t1].kind != TrackKind::Audio {
                                assert(p.timeline.tracks@[t0 as int].kind != TrackKind::Audio);
                                lemma_remove_measurable(clips_at(*p, t0 as int), i as int);
                            }
                        } else {
                            assert(mid.timeline.tracks@[t1] == p.timeline.tracks@[t1]);
                        }
                    }
                }
            }
            true
        },
        None => true,
    }
}

/// Whether splitting the clip `clip_id` at `at_frame` fits: besides the
/// numbers of the two halves, it asks every non-audio track to be
/// measurable.
fn split_fits(p: &Project, clip_id: ClipId, at_frame: i64) -> (b: bool)
    ensures
        b ==> structure_fits(*p, EditCommand::SplitClip { clip_id, at_frame }),
{
    if !owner_found_check(p, clip_id) || !non_audio_measurable_check(p) {
        return false;
    }
    match locate(p, clip_id) {
        Some((t0, i)) => {
            let orig = &p.timeline.tracks[t0].clips[i];
            let sp = match at_frame.checked_sub(orig.timeline_in) {
                Some(v) => v,
                None => {
                    return false;
                },
            };
            let rest = match orig.source_duration.checked_sub(sp) {
                Some(v) => v,
                None => {
                    return false;
                },
            };
            if orig.source_in.checked_add(sp).is_none() {
                return false;
            }
            let left_len = scaled_round_exec(sp, orig.speed.den, orig.speed.num);
            let right_len = scaled_round_exec(rest, orig.speed.den, orig.speed.num);
            if left_len < 0 || orig.timeline_in.checked_add(left_len).is_none() || right_len < 0
                || at_frame.checked_add(right_len).is_none() {
                return false;
            }
            proof {
                let o = clips_at(*p, t0 as int)[i as int];
                let kind = p.timeline.tracks@[t0 as int].kind;
                assert forall|mid: Project, left: Clip|
                    #[trigger] clips_replaced(*p, mid, t0 as int, clips_at(*p, t0 as int).remove(i as int))
                        && #[trigger] is_left_half(left, o, sp as int) implies insertable(mid, t0 as int, left) by {
                    if kind != TrackKind::Audio {
                        lemma_remove_measurable(clips_at(*p, t0 as int), i as int);
                    }
                }
                assert forall|mid: Project, mid2: Project, left: Clip, right: Clip, r1: Result<(), EngineError>|
                    #![trigger inserted_into(mid, mid2, t0 as int, left, r1), is_right_half(right, o, at_frame, sp as int)]
                    clips_replaced(*p, mid, t0 as int, clips_at(*p, t0 as int).remove(i as int)) && is_left_half(
                        left,
                        o,
                        sp as int,
                    ) && inserted_into(mid, mid2, t0 as int, left, r1) && r1 is Ok && is_right_half(
                        right,
                        o,
                        at_frame,
                        sp as int,
                    ) implies insertable(mid2, t0 as int, right) by {
                    let tr = mid.timeline.tracks@[t0 as int];
                    let nclips = mid2.timeline.tracks@[t0 as int].clips@;
                    let rr = choose|rr: Result<(), ModelError>|
                        #[trigger] insert_clip_outcome(tr.id, tr.kind, tr.clips@, left, nclips, rr) && r1 == lift(rr);
                    if kind != TrackKind::Audio {
                        lemma_remove_measurable(clips_at(*p, t0 as int), i as int);
                        if rr is Ok {
                            lemma_insert_pos_range(tr.clips@, left.timeline_in as int, 0);
                            lemma_insert_measurable(tr.clips@, insert_pos(tr.clips@, left.timeline_in as int), left);
                        }
                    }
                }
            }
            true
        },
        None => true,
    }
}

/// Whether `cmd` can be applied to `project`.  A `true` answer guarantees
/// it (see [`applicable`]).  The check is exact for single commands other
/// than a move, a split and a multicam creation; a move or a split is
/// accepted when every non-audio track is measurable and the moved or
/// split clip's new spans fit; a multicam creation is not accepted; a batch
/// is accepted when every command in it fits every project (see
/// [`fits_anywhere`]).
pub fn command_fits(project: &Project, cmd: &EditCommand, discovered: &Vec<PluginManifest>) -> (b: bool)
    ensures
        b ==> applicable(*project, *cmd, discovered@),
{
    proof {
        reveal(step_fits);
    }
    match cmd {
        EditCommand::SlipClip { clip_id, delta } => slip_fits(project, *clip_id, *delta),
        EditCommand::InsertClip { track_id, position, source_in, source_out, .. } => insert_fits(
            project,
            *track_id,
            *position,
            *source_in,
            *source_out,
        ),
        EditCommand::RemoveClip { clip_id } => owner_found_check(project, *clip_id),
        EditCommand::RippleDelete { clip_id } => ripple_delete_fits(project, *clip_id),
        EditCommand::CollapseMulticam { clip_id } => collapse_fits(project, *clip_id),
        EditCommand::MoveClip { clip_id, new_track_id, new_position } => move_fits(
            project,
            *clip_id,
            *new_track_id,
            *new_position,
        ),
        EditCommand::SplitClip { clip_id, at_frame } => split_fits(project, *clip_id, *at_frame),
        EditCommand::CreateMulticam { .. } => false,
        _ => {
            let b = fits_anywhere_check(cmd);
            proof {
                if b {
                    lemma_fits_anywhere(*project, *cmd, discovered@);
                }
            }
            b
        },
    }
}

} // verus!
