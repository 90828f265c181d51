//! Commands on multicam groups: creating, switching, editing and collapsing.

use vstd::prelude::*;
use crate::apply::{EngineError, clips_replaced, find_track, lemma_clips_replaced_twice, put_clips, take_clips, track_at};
use crate::clip::{BlendMode, Clip};
use crate::commands::EditCommand;
use crate::ids::{AngleId, AssetId, ClipId, TrackId};
use crate::multicam::{
    FALLBACK_MULTICAM_FRAMES, MulticamAngle, MulticamAudioPolicy, MulticamClip, MulticamSyncMethod,
    first_angle_pos, max_offset,
};
use crate::project::{Project, multicam_pos};
use crate::restructure::{clips_at, inserted_into, insertable, is_new_clip, lemma_unit_speed_len, locate, located};
use crate::time::Rational;
use crate::track::{TrackKind, clips_measurable};
use crate::transform::Transform;

verus! {

/// Only the multicam groups differ between `pre` and `post`.
pub open spec fn only_multicam_changed(pre: Project, post: Project) -> bool {
    post == (Project { multicam_clips: post.multicam_clips, ..pre })
}

/// A command on the multicam group whose wrapper clip is `cid`: nothing
/// happens without one; otherwise that group is replaced by one that `rel`
/// relates to it.
pub open spec fn multicam_edit(
    pre: Project,
    post: Project,
    cid: ClipId,
    rel: spec_fn(MulticamClip, MulticamClip) -> bool,
) -> bool {
    let mcs = pre.multicam_clips@;
    match multicam_pos(mcs, cid) {
        Some(i) => {
            &&& only_multicam_changed(pre, post)
            &&& post.multicam_clips@ == mcs.update(i, post.multicam_clips@[i])
            &&& rel(mcs[i], post.multicam_clips@[i])
        },
        None => post == pre,
    }
}

/// `a` is a new enabled angle of `asset_id` at `offset_frames`, starting at
/// source frame 0, with no gain trim.
pub open spec fn is_new_angle(a: MulticamAngle, label: String, asset_id: AssetId, offset_frames: i64) -> bool {
    &&& a.id.0 != 0 && a.label == label && a.asset_id == asset_id
    &&& a.offset_frames == offset_frames && a.source_in == 0 && a.enabled && a.gain_trim_db is None
}

/// `a` is the angle made from clip `c` for a group starting at `position`.
pub open spec fn angle_from_clip(a: MulticamAngle, c: Clip, position: i64) -> bool {
    &&& a.id.0 != 0 && a.label == c.label && a.asset_id == c.asset_id
    &&& a.offset_frames == c.timeline_in - position && a.source_in == c.source_in
    &&& a.enabled && a.gain_trim_db == c.gain_db
}

/// `angles` holds one angle per id of `ids` that locates a clip in `pre`, in
/// order, each made from its clip.
pub open spec fn angles_for(pre: Project, ids: Seq<ClipId>, position: i64, angles: Seq<MulticamAngle>) -> bool
    decreases ids.len(),
{
    if ids.len() == 0 {
        angles.len() == 0
    } else {
        match located(pre, ids.last()) {
            Some((t, i)) => angles.len() > 0 && angle_from_clip(angles.last(), clips_at(pre, t)[i], position)
                && angles_for(pre, ids.drop_last(), position, angles.drop_last()),
            None => angles_for(pre, ids.drop_last(), position, angles),
        }
    }
}

/// `q` is `p` after removing the clip that `cid` locates (if any).
pub open spec fn remove_one(p: Project, cid: ClipId, q: Project) -> bool {
    match located(p, cid) {
        Some((t, i)) => clips_replaced(p, q, t, clips_at(p, t).remove(i)),
        None => q == p,
    }
}

/// `q` is `p` after removing, in order, the clip each id of `ids` locates:
/// some chain of projects leads from `p` to `q`, one removal per id.
pub open spec fn removed_each(p: Project, ids: Seq<ClipId>, q: Project) -> bool {
    exists|states: Seq<Project>|
        #[trigger] states.len() == ids.len() + 1 && states[0] == p && states.last() == q && forall|k: int|
            0 <= k < ids.len() ==> remove_one(#[trigger] states[k], ids[k], states[k + 1])
}

proof fn lemma_removed_each_start(p: Project)
    ensures
        removed_each(p, Seq::empty(), p),
{
    let states = seq![p];
    assert(states.len() == 1 && states[0] == p && states.last() == p);
}

proof fn lemma_removed_each_step(p: Project, ids: Seq<ClipId>, mid: Project, q: Project)
    requires
        ids.len() > 0,
        removed_each(p, ids.drop_last(), mid),
        remove_one(mid, ids.last(), q),
    ensures
        removed_each(p, ids, q),
{
    let states = choose|states: Seq<Project>|
        #[trigger] states.len() == ids.drop_last().len() + 1 && states[0] == p && states.last() == mid && forall|k: int|
            0 <= k < ids.drop_last().len() ==> remove_one(#[trigger] states[k], ids.drop_last()[k], states[k + 1]);
    let s2 = states.push(q);
    assert forall|k: int| 0 <= k < ids.len() implies remove_one(#[trigger] s2[k], ids[k], s2[k + 1]) by {
        if k < ids.len() - 1 {
            assert(s2[k] == states[k] && s2[k + 1] == states[k + 1]);
            assert(ids[k] == ids.drop_last()[k]);
        } else {
            assert(s2[k] == mid && s2[k + 1] == q);
        }
    }
    assert(s2.len() == ids.len() + 1 && s2[0] == p && s2.last() == q);
}

/// The clip a collapse puts in place of wrapper `w`: the active angle's
/// label, asset and source start, with the wrapper's placement and settings.
pub open spec fn is_collapsed(plain: Clip, w: Clip, a: MulticamAngle) -> bool {
    &&& plain.id.0 != 0
    &&& plain == (Clip {
        id: plain.id,
        label: a.label,
        asset_id: a.asset_id,
        source_in: a.source_in,
        ..w
    })
}

/// The commands on multicam groups.
pub open spec fn is_multicam_cmd(cmd: EditCommand) -> bool {
    match cmd {
        EditCommand::CreateMulticam { .. } | EditCommand::SwitchMulticamAngle { .. }
        | EditCommand::AddMulticamAngle { .. } | EditCommand::RemoveMulticamAngle { .. }
        | EditCommand::SetMulticamAudioPolicy { .. } | EditCommand::CollapseMulticam { .. }
        | EditCommand::SetMulticamSeparateAudio { .. } => true,
        _ => false,
    }
}

/// The wrapper clip of a new group over `angles`: the first angle's asset
/// (the nil asset without angles), 300 frames from `position`.
pub open spec fn is_wrapper(w: Clip, label: String, angles: Seq<MulticamAngle>, position: i64) -> bool {
    is_new_clip(
        w,
        label@,
        if angles.len() > 0 { angles[0].asset_id } else { AssetId(0) },
        position,
        0,
        FALLBACK_MULTICAM_FRAMES,
        None,
    )
}

/// A multicam command computes its frame numbers without overflow.
pub open spec fn multicam_fits(pre: Project, cmd: EditCommand) -> bool {
    match cmd {
        EditCommand::CreateMulticam { clip_ids, position, track_id, .. } => {
            &&& forall|k: int|
                0 <= k < clip_ids@.len() ==> (#[trigger] located(pre, clip_ids@[k]) matches Some((t, i))
                    ==> i64::MIN <= clips_at(pre, t)[i].timeline_in - position <= i64::MAX)
            &&& forall|angles: Seq<MulticamAngle>|
                #[trigger] angles_for(pre, clip_ids@, position, angles) ==> max_offset(angles)
                    + FALLBACK_MULTICAM_FRAMES <= i64::MAX
            &&& forall|mid: Project, w: Clip, label: String, angles: Seq<MulticamAngle>|
                #[trigger] removed_each(pre, clip_ids@, mid) && #[trigger] is_wrapper(w, label, angles, position)
                    ==> (track_at(mid.timeline, track_id) matches Some(t) ==> insertable(mid, t, w))
        },
        EditCommand::CollapseMulticam { clip_id } => match located(pre, clip_id) {
            Some((t, i)) => {
                &&& clips_at(pre, t)[i].end_fits() && clips_at(pre, t)[i].dur() >= 0
                &&& pre.timeline.tracks@[t].kind != TrackKind::Audio ==> clips_measurable(
                    clips_at(pre, t).remove(i),
                )
            },
            None => true,
        },
        _ => true,
    }
}

/// What a multicam command does.
pub open spec fn multicam_outcome(pre: Project, cmd: EditCommand, post: Project, r: Result<(), EngineError>) -> bool {
    match cmd {
        EditCommand::SwitchMulticamAngle { clip_id, angle_index } => r is Ok && multicam_edit(
            pre,
            post,
            clip_id,
            |a: MulticamClip, b: MulticamClip|
                b == (if angle_index < a.angles@.len() {
                    MulticamClip { active_angle_index: angle_index, ..a }
                } else {
                    a
                }),
        ),
        EditCommand::AddMulticamAngle { clip_id, asset_id, label, offset_frames } => r is Ok && multicam_edit(
            pre,
            post,
            clip_id,
            |a: MulticamClip, b: MulticamClip|
                b == (MulticamClip { angles: b.angles, ..a }) && b.angles@ == a.angles@.push(b.angles@.last())
                    && is_new_angle(b.angles@.last(), label, asset_id, offset_frames),
        ),
        EditCommand::RemoveMulticamAngle { clip_id, angle_id } => r is Ok && multicam_edit(
            pre,
            post,
            clip_id,
            |a: MulticamClip, b: MulticamClip|
                match first_angle_pos(a.angles@, angle_id) {
                    Some(i) => {
                        let rest = a.angles@.remove(i);
                        &&& b == (MulticamClip {
                            angles: b.angles,
                            active_angle_index: b.active_angle_index,
                            ..a
                        })
                        &&& b.angles@ == rest
                        &&& b.active_angle_index == (if a.active_angle_index >= rest.len() {
                            if rest.len() >= 1 { (rest.len() - 1) as usize } else { 0usize }
                        } else {
                            a.active_angle_index
                        })
                    },
                    None => b == a,
                },
        ),
        EditCommand::SetMulticamAudioPolicy { clip_id, policy } => r is Ok && multicam_edit(
            pre,
            post,
            clip_id,
            |a: MulticamClip, b: MulticamClip| b == (MulticamClip { audio_policy: policy, ..a }),
        ),
        EditCommand::SetMulticamSeparateAudio { clip_id, audio_clip_id } => r is Ok && multicam_edit(
            pre,
            post,
            clip_id,
            |a: MulticamClip, b: MulticamClip| b == (MulticamClip { separate_audio_clip_id: audio_clip_id, ..a }),
        ),
        EditCommand::CollapseMulticam { clip_id } => r is Ok && exists|mid: Project|
            #[trigger] collapse_step(pre, clip_id, mid) && match multicam_pos(mid.multicam_clips@, clip_id) {
                Some(i) => only_multicam_changed(mid, post) && post.multicam_clips@ == mid.multicam_clips@.remove(i),
                None => post == mid,
            },
        EditCommand::CreateMulticam { clip_ids, label, sync_method, position, track_id } => exists|
            angles: Seq<MulticamAngle>,
            mid: Project,
            w: Clip,
        |
            #![trigger angles_for(pre, clip_ids@, position, angles), removed_each(pre, clip_ids@, mid), is_wrapper(w, label, angles, position)]
            angles_for(pre, clip_ids@, position, angles) && removed_each(pre, clip_ids@, mid) && is_wrapper(
                w,
                label,
                angles,
                position,
            ) && wrapper_then_group(mid, post, w, label, angles, sync_method, position, track_id, r),
        _ => false,
    }
}

/// `post` is `mid` after placing wrapper `w` on track `track_id` (when it
/// exists) and, unless that placement failed, registering the new group.
pub open spec fn wrapper_then_group(
    mid: Project,
    post: Project,
    w: Clip,
    label: String,
    angles: Seq<MulticamAngle>,
    sync_method: MulticamSyncMethod,
    position: i64,
    track_id: TrackId,
    r: Result<(), EngineError>,
) -> bool {
    match track_at(mid.timeline, track_id) {
        Some(t) => exists|mid2: Project, r1: Result<(), EngineError>|
            #[trigger] inserted_into(mid, mid2, t, w, r1) && (r1 is Err ==> post == mid2 && r == r1) && (r1 is Ok
                ==> group_added(mid2, post, w, label, angles, sync_method, position) && r is Ok),
        None => group_added(mid, post, w, label, angles, sync_method, position) && r is Ok,
    }
}

/// `post` is `p` with a new group for wrapper `w` appended: angle 0 active,
/// audio following the video, lasting 300 frames past the largest offset.
pub open spec fn group_added(
    p: Project,
    post: Project,
    w: Clip,
    label: String,
    angles: Seq<MulticamAngle>,
    sync_method: MulticamSyncMethod,
    position: i64,
) -> bool {
    let mc = post.multicam_clips@.last();
    &&& only_multicam_changed(p, post)
    &&& post.multicam_clips@ == p.multicam_clips@.push(mc)
    &&& mc.clip_id == w.id && mc.label == label && mc.angles@ == angles
    &&& mc.active_angle_index == 0 && mc.sync_method == sync_method
    &&& mc.audio_policy == MulticamAudioPolicy::FollowVideo && mc.separate_audio_clip_id is None
    &&& mc.timeline_in == position && mc.duration_frames == max_offset(angles) + FALLBACK_MULTICAM_FRAMES
}

/// The timeline part of collapsing the group of wrapper `cid`: when the
/// group, its active angle and the wrapper clip are found, the wrapper is
/// replaced by a plain clip of the active angle (an insertion failure is
/// ignored).
pub open spec fn collapse_step(pre: Project, cid: ClipId, mid: Project) -> bool {
    let mcs = pre.multicam_clips@;
    match multicam_pos(mcs, cid) {
        Some(m) => {
            let mc = mcs[m];
            if mc.active_angle_index < mc.angles@.len() {
                match located(pre, cid) {
                    Some((t, i)) => exists|mid0: Project, plain: Clip, r1: Result<(), EngineError>|
                        #[trigger] clips_replaced(pre, mid0, t, clips_at(pre, t).remove(i)) && #[trigger] is_collapsed(
                            plain,
                            clips_at(pre, t)[i],
                            mc.angles@[mc.active_angle_index as int],
                        ) && #[trigger] inserted_into(mid0, mid, t, plain, r1),
                    None => mid == pre,
                }
            } else {
                mid == pre
            }
        },
        None => mid == pre,
    }
}


/// Make angle `angle_index` of the group active.
fn switch_angle_cmd(project: &mut Project, clip_id: ClipId, angle_index: usize) -> (r: Result<(), EngineError>)
    ensures
        multicam_outcome(*old(project), EditCommand::SwitchMulticamAngle { clip_id, angle_index }, *final(project), r),
{
    let ghost pre = *project;
    if let Some(i) = project.multicam_index(clip_id) {
        let _ = project.multicam_clips[i].switch_to(angle_index);
        assert(project.multicam_clips@ =~= pre.multicam_clips@.update(i as int, project.multicam_clips@[i as int]));
    }
    Ok(())
}

/// Add a new angle to the group.
fn add_angle_cmd(project: &mut Project, clip_id: ClipId, asset_id: AssetId, label: String, offset_frames: i64) -> (r: Result<(), EngineError>)
    ensures
        multicam_outcome(
            *old(project),
            EditCommand::AddMulticamAngle { clip_id, asset_id, label, offset_frames },
            *final(project),
            r,
        ),
{
    let ghost pre = *project;
    if let Some(i) = project.multicam_index(clip_id) {
        let angle = MulticamAngle {
            id: AngleId::next(),
            label,
            asset_id,
            offset_frames,
            source_in: 0,
            enabled: true,
            gain_trim_db: None,
        };
        project.multicam_clips[i].add_angle(angle);
        assert(project.multicam_clips@ =~= pre.multicam_clips@.update(i as int, project.multicam_clips@[i as int]));
    }
    Ok(())
}

/// Remove an angle from the group.
fn remove_angle_cmd(project: &mut Project, clip_id: ClipId, angle_id: AngleId) -> (r: Result<(), EngineError>)
    ensures
        multicam_outcome(*old(project), EditCommand::RemoveMulticamAngle { clip_id, angle_id }, *final(project), r),
{
    let ghost pre = *project;
    if let Some(i) = project.multicam_index(clip_id) {
        let _ = project.multicam_clips[i].remove_angle(angle_id);
        assert(project.multicam_clips@ =~= pre.multicam_clips@.update(i as int, project.multicam_clips@[i as int]));
    }
    Ok(())
}

/// Set the group's audio policy.
fn set_audio_policy_cmd(project: &mut Project, clip_id: ClipId, policy: MulticamAudioPolicy) -> (r: Result<(), EngineError>)
    ensures
        multicam_outcome(*old(project), EditCommand::SetMulticamAudioPolicy { clip_id, policy }, *final(project), r),
{
    let ghost pre = *project;
    if let Some(i) = project.multicam_index(clip_id) {
        project.multicam_clips[i].audio_policy = policy;
        assert(project.multicam_clips@ =~= pre.multicam_clips@.update(i as int, project.multicam_clips@[i as int]));
    }
    Ok(())
}

/// Set or clear the group's separate audio clip.
fn set_separate_audio_cmd(project: &mut Project, clip_id: ClipId, audio_clip_id: Option<ClipId>) -> (r: Result<(), EngineError>)
    ensures
        multicam_outcome(
            *old(project),
            EditCommand::SetMulticamSeparateAudio { clip_id, audio_clip_id },
            *final(project),
            r,
        ),
{
    let ghost pre = *project;
    if let Some(i) = project.multicam_index(clip_id) {
        project.multicam_clips[i].separate_audio_clip_id = audio_clip_id;
        assert(project.multicam_clips@ =~= pre.multicam_clips@.update(i as int, project.multicam_clips@[i as int]));
    }
    Ok(())
}

/// Collapse a group to a plain clip of its active angle and drop the group.
fn collapse_cmd(project: &mut Project, clip_id: ClipId) -> (r: Result<(), EngineError>)
    requires
        multicam_fits(*old(project), EditCommand::CollapseMulticam { clip_id }),
    ensures
        multicam_outcome(*old(project), EditCommand::CollapseMulticam { clip_id }, *final(project), r),
{
    let ghost pre = *project;
    let info = match project.multicam_index(clip_id) {
        Some(m) => match project.multicam_clips[m].active_angle() {
            Some(a) => Some((a.label.clone(), a.asset_id, a.source_in)),
            None => None,
        },
        None => None,
    };
    if let Some((label, asset_id, source_in)) = info {
        if let Some((t, i)) = locate(project, clip_id) {
            let mut clips = take_clips(project, t);
            let ghost mid_a = *project;
            let w = clips.remove(i);
            put_clips(project, t, clips);
            let ghost mid0 = *project;
            proof {
                lemma_clips_replaced_twice(pre, mid_a, mid0, t as int, Seq::empty(), clips_at(pre, t as int).remove(i as int));
            }
            let plain = Clip { id: ClipId::next(), label, asset_id, source_in, ..w };
            let ghost pc = plain;
            let rr = project.timeline.tracks[t].insert_clip(plain);
            let r1 = match rr {
                Ok(()) => Ok(()),
                Err(e) => Err(EngineError::Model(e)),
            };
            proof {
                let tr = mid0.timeline.tracks@[t as int];
                assert(crate::track::insert_clip_outcome(tr.id, tr.kind, tr.clips@, pc, clips_at(*project, t as int), rr));
                assert(project.timeline.tracks@ =~= mid0.timeline.tracks@.update(t as int, project.timeline.tracks@[t as int]));
                assert(inserted_into(mid0, *project, t as int, pc, r1));
                let m = multicam_pos(pre.multicam_clips@, clip_id)->0;
                let mc = pre.multicam_clips@[m];
                assert(located(pre, clip_id) == Some((t as int, i as int)));
                assert(clips_replaced(pre, mid0, t as int, clips_at(pre, t as int).remove(i as int)));
                assert(is_collapsed(pc, clips_at(pre, t as int)[i as int], mc.angles@[mc.active_angle_index as int]));
                assert(collapse_step(pre, clip_id, *project));
            }
        }
    }
    let ghost mid = *project;
    let _ = project.remove_multicam(clip_id);
    proof {
        assert(collapse_step(pre, clip_id, mid));
    }
    Ok(())
}


/// One angle per clip of `clip_ids` that can be found, made for a group
/// starting at `position`.
fn collect_angles(project: &Project, clip_ids: &Vec<ClipId>, position: i64) -> (angles: Vec<MulticamAngle>)
    requires
        forall|j: int|
            0 <= j < clip_ids@.len() ==> (#[trigger] located(*project, clip_ids@[j]) matches Some((t, i))
                ==> i64::MIN <= clips_at(*project, t)[i].timeline_in - position <= i64::MAX),
    ensures
        angles_for(*project, clip_ids@, position, angles@),
{
    let ghost ids = clip_ids@;
    let mut angles: Vec<MulticamAngle> = Vec::new();
    let mut k: usize = 0;
    assert(ids.take(0) =~= Seq::<ClipId>::empty());
    while k < clip_ids.len()
        invariant
            ids == clip_ids@,
            0 <= k <= ids.len(),
            forall|j: int|
                0 <= j < ids.len() ==> (#[trigger] located(*project, ids[j]) matches Some((t, i))
                    ==> i64::MIN <= clips_at(*project, t)[i].timeline_in - position <= i64::MAX),
            angles_for(*project, ids.take(k as int), position, angles@),
        decreases ids.len() - k,
    {
        let cid = clip_ids[k];
        proof {
            assert(ids.take(k + 1).drop_last() =~= ids.take(k as int));
            assert(ids.take(k + 1).last() == ids[k as int]);
        }
        let ghost before = angles@;
        match locate(project, cid) {
            Some((t, i)) => {
                assert(located(*project, ids[k as int]) == Some((t as int, i as int)));
                let c = &project.timeline.tracks[t].clips[i];
                let a = MulticamAngle {
                    id: AngleId::next(),
                    label: c.label.clone(),
                    asset_id: c.asset_id,
                    offset_frames: c.timeline_in - position,
                    source_in: c.source_in,
                    enabled: true,
                    gain_trim_db: c.gain_db,
                };
                angles.push(a);
                assert(angles@.drop_last() =~= before);
            },
            None => {},
        }
        k = k + 1;
    }
    assert(ids.take(ids.len() as int) =~= ids);
    angles
}

/// Remove, in order, the clip each id of `clip_ids` finds.
fn remove_located(project: &mut Project, clip_ids: &Vec<ClipId>)
    ensures
        removed_each(*old(project), clip_ids@, *final(project)),
{
    let ghost pre = *project;
    let ghost ids = clip_ids@;
    let mut k: usize = 0;
    assert(ids.take(0) =~= Seq::<ClipId>::empty());
    proof {
        lemma_removed_each_start(pre);
    }
    while k < clip_ids.len()
        invariant
            ids == clip_ids@,
            0 <= k <= ids.len(),
            removed_each(pre, ids.take(k as int), *project),
        decreases ids.len() - k,
    {
        let ghost before = *project;
        proof {
            assert(ids.take(k + 1).drop_last() =~= ids.take(k as int));
            assert(ids.take(k + 1).last() == ids[k as int]);
        }
        match locate(project, clip_ids[k]) {
            Some((t, i)) => {
                let mut cl = take_clips(project, t);
                let ghost mid_a = *project;
                cl.remove(i);
                put_clips(project, t, cl);
                proof {
                    lemma_clips_replaced_twice(
                        before,
                        mid_a,
                        *project,
                        t as int,
                        Seq::empty(),
                        clips_at(before, t as int).remove(i as int),
                    );
                }
            },
            None => {},
        }
        proof {
            assert(remove_one(before, ids.take(k + 1).last(), *project));
            assert(removed_each(pre, ids.take(k + 1).drop_last(), before));
            lemma_removed_each_step(pre, ids.take(k + 1), before, *project);
        }
        k = k + 1;
    }
    assert(ids.take(ids.len() as int) =~= ids);
}

/// Group the clips `clip_ids` into a new multicam clip at `position` on
/// track `track_id`: each found clip becomes an angle and leaves its track,
/// and a wrapper clip takes their place.
fn create_multicam_cmd(
    project: &mut Project,
    clip_ids: Vec<ClipId>,
    label: String,
    sync_method: MulticamSyncMethod,
    position: i64,
    track_id: TrackId,
) -> (r: Result<(), EngineError>)
    requires
        multicam_fits(
            *old(project),
            EditCommand::CreateMulticam { clip_ids, label, sync_method, position, track_id },
        ),
    ensures
        multicam_outcome(
            *old(project),
            EditCommand::CreateMulticam { clip_ids, label, sync_method, position, track_id },
            *final(project),
            r,
        ),
{
    let ghost pre = *project;
    let ghost ids = clip_ids@;
    let ghost cmd = EditCommand::CreateMulticam { clip_ids, label, sync_method, position, track_id };
    let angles = collect_angles(project, &clip_ids, position);
    let ghost angle_seq = angles@;
    remove_located(project, &clip_ids);
    let ghost mid = *project;
    proof {
        assert(angles_for(pre, ids, position, angle_seq));
        assert(removed_each(pre, ids, mid));
    }
    let ghost lab = label;
    let r = place_group(project, label, angles, sync_method, position, track_id, Ghost(pre), Ghost(ids));
    proof {
        let w = choose|w: Clip|
            #[trigger] is_wrapper(w, lab, angle_seq, position) && wrapper_then_group(
                mid,
                *project,
                w,
                lab,
                angle_seq,
                sync_method,
                position,
                track_id,
                r,
            );
        assert(angles_for(pre, ids, position, angle_seq) && removed_each(pre, ids, mid) && is_wrapper(
            w,
            lab,
            angle_seq,
            position,
        ));
        assert(wrapper_then_group(mid, *project, w, lab, angle_seq, sync_method, position, track_id, r));
        assert(exists|angles: Seq<MulticamAngle>, mid: Project, w: Clip|
            #![trigger angles_for(pre, ids, position, angles), removed_each(pre, ids, mid), is_wrapper(w, lab, angles, position)]
            angles_for(pre, ids, position, angles) && removed_each(pre, ids, mid) && is_wrapper(
                w,
                lab,
                angles,
                position,
            ) && wrapper_then_group(mid, *project, w, lab, angles, sync_method, position, track_id, r));
        assert(cmd->CreateMulticam_clip_ids@ == ids);
        assert(cmd->CreateMulticam_label == lab);
        assert(angles_for(pre, cmd->CreateMulticam_clip_ids@, position, angle_seq));
        assert(removed_each(pre, cmd->CreateMulticam_clip_ids@, mid));
        assert(is_wrapper(w, cmd->CreateMulticam_label, angle_seq, position));
        assert(wrapper_then_group(mid, *project, w, cmd->CreateMulticam_label, angle_seq, sync_method, position, track_id, r));
        assert(multicam_outcome(pre, cmd, *project, r));
    }
    r
}

/// Place the wrapper clip of a new group on track `track_id` and register
/// the group.
fn place_group(
    project: &mut Project,
    label: String,
    angles: Vec<MulticamAngle>,
    sync_method: MulticamSyncMethod,
    position: i64,
    track_id: TrackId,
    Ghost(pre): Ghost<Project>,
    Ghost(ids): Ghost<Seq<ClipId>>,
) -> (r: Result<(), EngineError>)
    requires
        angles_for(pre, ids, position, angles@),
        removed_each(pre, ids, *old(project)),
        forall|angles: Seq<MulticamAngle>|
            #[trigger] angles_for(pre, ids, position, angles) ==> max_offset(angles) + FALLBACK_MULTICAM_FRAMES
                <= i64::MAX,
        forall|mid: Project, w: Clip, label: String, angles: Seq<MulticamAngle>|
            #[trigger] removed_each(pre, ids, mid) && #[trigger] is_wrapper(w, label, angles, position) ==> (track_at(
                mid.timeline,
                track_id,
            ) matches Some(t) ==> insertable(mid, t, w)),
    ensures
        exists|w: Clip|
            #[trigger] is_wrapper(w, label, angles@, position) && wrapper_then_group(
                *old(project),
                *final(project),
                w,
                label,
                angles@,
                sync_method,
                position,
                track_id,
                r,
            ),
{
    let ghost angle_seq = angles@;
    let ghost mid = *project;
    let first_asset = if angles.len() > 0 {
        angles[0].asset_id
    } else {
        AssetId::default()
    };
    let wrapper_id = ClipId::next();
    let wrapper = Clip {
        id: wrapper_id,
        label: label.clone(),
        asset_id: first_asset,
        timeline_in: position,
        source_in: 0,
        source_duration: FALLBACK_MULTICAM_FRAMES,
        transform: Transform::default(),
        blend_mode: BlendMode::default(),
        mask: None,
        fade: None,
        transition: None,
        speed: Rational::new(1, 1),
        speed_curve: Vec::new(),
        reverse: false,
        freeze_frame: None,
        frame_blending: false,
        spatial_conform: None,
        gain_db: None,
        volume_keyframes: None,
        mute_audio: false,
        filters: Vec::new(),
        keyframes: Vec::new(),
        link_group_id: None,
        generator: None,
    };
    let ghost w = wrapper;
    proof {
        lemma_unit_speed_len(FALLBACK_MULTICAM_FRAMES as int);
        assert(is_wrapper(w, label, angle_seq, position));
        assert(angles_for(pre, ids, position, angle_seq));
        assert(removed_each(pre, ids, mid));
    }
    match find_track(&project.timeline, track_id) {
        Some(t) => {
            proof {
                assert(insertable(mid, t as int, w));
            }
            let rr = project.timeline.tracks[t].insert_clip(wrapper);
            let r1 = match rr {
                Ok(()) => Ok(()),
                Err(e) => Err(EngineError::Model(e)),
            };
            proof {
                let tr = mid.timeline.tracks@[t as int];
                assert(crate::track::insert_clip_outcome(tr.id, tr.kind, tr.clips@, w, clips_at(*project, t as int), rr));
                assert(project.timeline.tracks@ =~= mid.timeline.tracks@.update(t as int, project.timeline.tracks@[t as int]));
                assert(inserted_into(mid, *project, t as int, w, r1));
            }
            if r1.is_err() {
                return r1;
            }
        },
        None => {},
    }
    let ghost mid2 = *project;
    proof {
        assert(max_offset(angle_seq) + FALLBACK_MULTICAM_FRAMES <= i64::MAX);
    }
    let mc = MulticamClip::new(wrapper_id, label, angles, sync_method, position);
    project.add_multicam(mc);
    proof {
        assert(group_added(mid2, *project, w, label, angle_seq, sync_method, position));
    }
    Ok(())
}


/// Apply a command on multicam groups.
pub fn apply_multicam_cmd(project: &mut Project, cmd: EditCommand) -> (r: Result<(), EngineError>)
    requires
        is_multicam_cmd(cmd),
        multicam_fits(*old(project), cmd),
    ensures
        multicam_outcome(*old(project), cmd, *final(project), r),
{
    match cmd {
        EditCommand::CreateMulticam { clip_ids, label, sync_method, position, track_id } => create_multicam_cmd(
            project,
            clip_ids,
            label,
            sync_method,
            position,
            track_id,
        ),
        EditCommand::SwitchMulticamAngle { clip_id, angle_index } => switch_angle_cmd(project, clip_id, angle_index),
        EditCommand::AddMulticamAngle { clip_id, asset_id, label, offset_frames } => add_angle_cmd(
            project,
            clip_id,
            asset_id,
            label,
            offset_frames,
        ),
        EditCommand::RemoveMulticamAngle { clip_id, angle_id } => remove_angle_cmd(project, clip_id, angle_id),
        EditCommand::SetMulticamAudioPolicy { clip_id, policy } => set_audio_policy_cmd(project, clip_id, policy),
        EditCommand::CollapseMulticam { clip_id } => collapse_cmd(project, clip_id),
        EditCommand::SetMulticamSeparateAudio { clip_id, audio_clip_id } => set_separate_audio_cmd(
            project,
            clip_id,
            audio_clip_id,
        ),
        _ => Ok(()),
    }
}

} // verus!
