//! Commands that add, remove, move or split clips on the timeline.

use vstd::prelude::*;
use vstd::string::StringExecFns;
use crate::apply::{EngineError, clips_replaced, find_track, lemma_clips_replaced_twice, put_clips, take_clips, track_at};
use crate::asset::{after_last, stem_of_name};
use crate::clip::{BlendMode, Clip};
use crate::commands::EditCommand;
use crate::copy::{DeepCopy, copy_plain, copy_vec, same_seq, same_volume};
use crate::error::ModelError;
use crate::ids::{AssetId, ClipId, TrackId};
use crate::project::{Project, asset_pos};
use crate::time::Rational;
use crate::timeline::Timeline;
use crate::track::{TrackKind, clip_pos, clips_measurable, insert_clip_outcome};
use crate::transform::Transform;

verus! {

/// The track the timeline's clip index (or, without an entry, a scan)
/// names as the owner of clip `cid`.
#[verifier::opaque]
pub open spec fn owner_at(tl: Timeline, cid: ClipId) -> Option<TrackId> {
    tl.clip_owner(cid)
}

/// Id of the track that owns the clip `cid`, as the timeline reports it.
pub fn find_owner(tl: &Timeline, cid: ClipId) -> (r: Option<TrackId>)
    ensures
        r == owner_at(*tl, cid),
{
    proof {
        reveal(owner_at);
    }
    tl.clip_track_id(cid)
}

/// A model error, as an engine error.
pub open spec fn lift(rr: Result<(), ModelError>) -> Result<(), EngineError> {
    match rr {
        Ok(()) => Ok(()),
        Err(e) => Err(EngineError::Model(e)),
    }
}

/// `post` is `pre` after inserting `c` into the track at `t`, with result `r`.
pub open spec fn inserted_into(pre: Project, post: Project, t: int, c: Clip, r: Result<(), EngineError>) -> bool {
    let tr = pre.timeline.tracks@[t];
    let nclips = post.timeline.tracks@[t].clips@;
    &&& clips_replaced(pre, post, t, nclips)
    &&& exists|rr: Result<(), ModelError>| #[trigger] insert_clip_outcome(tr.id, tr.kind, tr.clips@, c, nclips, rr) && r == lift(rr)
}

/// Inserting `c` into the track at `t` computes every span it compares
/// without overflow.
pub open spec fn insertable(p: Project, t: int, c: Clip) -> bool {
    &&& 0 <= t < p.timeline.tracks@.len()
    &&& c.end_fits() && c.dur() >= 0
    &&& p.timeline.tracks@[t].kind != TrackKind::Audio ==> clips_measurable(p.timeline.tracks@[t].clips@)
}

/// `c` is a new plain clip of `asset_id` with these placement settings and
/// default everything else.
pub open spec fn is_new_clip(
    c: Clip,
    label: Seq<char>,
    asset_id: AssetId,
    timeline_in: i64,
    source_in: i64,
    source_duration: i64,
    link_group_id: Option<u64>,
) -> bool {
    &&& c.id.0 != 0 && c.label@ == label && c.asset_id == asset_id
    &&& c.timeline_in == timeline_in && c.source_in == source_in && c.source_duration == source_duration
    &&& c.transform.is_identity() && c.blend_mode == BlendMode::Normal
    &&& c.mask is None && c.fade is None && c.transition is None
    &&& c.speed == (Rational { num: 1, den: 1 }) && c.speed_curve@.len() == 0
    &&& !c.reverse && c.freeze_frame is None && !c.frame_blending && c.spatial_conform is None
    &&& c.gain_db is None && c.volume_keyframes is None && !c.mute_audio
    &&& c.filters@.len() == 0 && c.keyframes@.len() == 0
    &&& c.link_group_id == link_group_id && c.generator is None
}

/// The label a clip inserted from `asset_id` gets: the asset's file-name stem,
/// or "clip" for an unknown asset.
pub open spec fn insert_label(pre: Project, asset_id: AssetId) -> Seq<char> {
    match asset_pos(pre.assets@, asset_id) {
        Some(i) => stem_of_name(after_last(pre.assets@[i].spec_path(), '/')),
        None => "clip"@,
    }
}

/// Where a structural command finds clip `cid`: the owner track's position
/// and the clip's position in it.
#[verifier::opaque]
pub open spec fn located(pre: Project, cid: ClipId) -> Option<(int, int)> {
    match owner_at(pre.timeline, cid) {
        Some(tid) => match track_at(pre.timeline, tid) {
            Some(t) => match clip_pos(pre.timeline.tracks@[t].clips@, cid) {
                Some(i) => Some((t, i)),
                None => None,
            },
            None => None,
        },
        None => None,
    }
}

/// The owner the clip index names for `cid` can be found among the tracks
/// (a stale index that names a removed track makes the lookup panic).
pub open spec fn owner_found(pre: Project, cid: ClipId) -> bool {
    owner_at(pre.timeline, cid) matches Some(tid) ==> track_at(pre.timeline, tid) is Some
}

/// Find the clip `cid` as structural commands do: through its owner track.
pub fn locate(p: &Project, cid: ClipId) -> (r: Option<(usize, usize)>)
    ensures
        r matches Some((t, i)) ==> located(*p, cid) == Some((t as int, i as int)) && t < p.timeline.tracks@.len()
            && i < p.timeline.tracks@[t as int].clips@.len(),
        r is None ==> located(*p, cid) is None,
{
    proof {
        reveal(located);
    }
    let tid = match find_owner(&p.timeline, cid) {
        Some(tid) => tid,
        None => {
            return None;
        },
    };
    let t = match find_track(&p.timeline, tid) {
        Some(t) => t,
        None => {
            return None;
        },
    };
    match p.timeline.tracks[t].clip_index(cid) {
        Some(i) => Some((t, i)),
        None => None,
    }
}

/// Clip `c` moved left by `gap` when it starts after `after`.
pub open spec fn shifted(c: Clip, after: i64, gap: int) -> Clip {
    if c.timeline_in > after {
        Clip { timeline_in: (c.timeline_in - gap) as i64, ..c }
    } else {
        c
    }
}

/// The clips of `s`, those starting after `after` moved left by `gap`.
pub open spec fn rippled(s: Seq<Clip>, after: i64, gap: int) -> Seq<Clip> {
    Seq::new(s.len(), |j: int| shifted(s[j], after, gap))
}

/// Moving the clips of `s` that start after `after` left by `gap` stays in `i64`.
pub open spec fn ripple_fits(s: Seq<Clip>, after: i64, gap: int) -> bool {
    forall|j: int| 0 <= j < s.len() && #[trigger] s[j].timeline_in > after ==> i64::MIN <= s[j].timeline_in - gap <= i64::MAX
}

/// The left half of `orig` split `sp` frames in: same placement start and
/// settings, `sp` source frames, no transition, label suffixed " (A)".
/// Its filters, keyframes, speed curve, volume automation and generator are
/// copies of the split clip's.
pub open spec fn is_left_half(left: Clip, orig: Clip, sp: int) -> bool {
    &&& left.id.0 != 0 && left.label@ == orig.label@ + " (A)"@
    &&& left.asset_id == orig.asset_id && left.timeline_in == orig.timeline_in
    &&& left.source_in == orig.source_in && left.source_duration == sp
    &&& left.transform == orig.transform && left.blend_mode == orig.blend_mode && left.mask == orig.mask
    &&& left.fade == orig.fade && left.transition is None && left.speed == orig.speed
    &&& left.reverse == orig.reverse && left.freeze_frame == orig.freeze_frame
    &&& left.frame_blending == orig.frame_blending && left.spatial_conform == orig.spatial_conform
    &&& left.gain_db == orig.gain_db && left.mute_audio == orig.mute_audio
    &&& left.link_group_id == orig.link_group_id
    &&& left.speed_curve@ == orig.speed_curve@
    &&& same_seq(orig.filters@, left.filters@) && same_seq(orig.keyframes@, left.keyframes@)
    &&& same_volume(orig.volume_keyframes, left.volume_keyframes)
    &&& left.generator == orig.generator
}

/// The right half of `orig` split at timeline frame `at_frame`, `sp` frames
/// in: it starts at `at_frame`, plays the rest of the source, has no
/// transition and the label suffixed " (B)", and keeps everything else.
pub open spec fn is_right_half(right: Clip, orig: Clip, at_frame: i64, sp: int) -> bool {
    &&& right.id.0 != 0 && right.label@ == orig.label@ + " (B)"@
    &&& right == (Clip {
        id: right.id,
        label: right.label,
        timeline_in: at_frame,
        source_in: (orig.source_in + sp) as i64,
        source_duration: (orig.source_duration - sp) as i64,
        transition: None,
        ..orig
    })
}


/// The commands that add, remove, move or split clips.
pub open spec fn is_structure_cmd(cmd: EditCommand) -> bool {
    match cmd {
        EditCommand::InsertClip { .. } | EditCommand::RemoveClip { .. } | EditCommand::RippleDelete { .. }
        | EditCommand::MoveClip { .. } | EditCommand::SplitClip { .. } => true,
        _ => false,
    }
}

/// The clips of the track at `t`.
pub open spec fn clips_at(p: Project, t: int) -> Seq<Clip> {
    p.timeline.tracks@[t].clips@
}

/// A structural command computes every frame number it needs without
/// overflow and finds the tracks its lookups promise.
pub open spec fn structure_fits(pre: Project, cmd: EditCommand) -> bool {
    match cmd {
        EditCommand::InsertClip { track_id, position, source_in, source_out, .. } => {
            &&& i64::MIN <= source_out - source_in <= i64::MAX
            &&& track_at(pre.timeline, track_id) matches Some(t) ==> {
                &&& source_out - source_in >= 0
                &&& i64::MIN <= position + (source_out - source_in) <= i64::MAX
                &&& pre.timeline.tracks@[t].kind != TrackKind::Audio ==> clips_measurable(clips_at(pre, t))
            }
        },
        EditCommand::RemoveClip { clip_id } => owner_found(pre, clip_id),
        EditCommand::RippleDelete { clip_id } => {
            &&& owner_found(pre, clip_id)
            &&& located(pre, clip_id) matches Some((t, i)) ==> ripple_fits(
                clips_at(pre, t).remove(i),
                clips_at(pre, t)[i].timeline_in,
                clips_at(pre, t)[i].dur(),
            )
        },
        EditCommand::MoveClip { clip_id, new_track_id, new_position } => {
            &&& owner_found(pre, clip_id)
            &&& located(pre, clip_id) matches Some((t0, i)) ==> forall|mid: Project|
                #[trigger] clips_replaced(pre, mid, t0, clips_at(pre, t0).remove(i)) ==> (track_at(
                    mid.timeline,
                    new_track_id,
                ) matches Some(t1) ==> insertable(
                    mid,
                    t1,
                    Clip { timeline_in: new_position, ..clips_at(pre, t0)[i] },
                ))
        },
        EditCommand::SplitClip { clip_id, at_frame } => {
            &&& owner_found(pre, clip_id)
            &&& located(pre, clip_id) matches Some((t0, i)) ==> {
                let orig = clips_at(pre, t0)[i];
                let sp = at_frame - orig.timeline_in;
                &&& i64::MIN <= sp <= i64::MAX
                &&& i64::MIN <= orig.source_in + sp <= i64::MAX
                &&& i64::MIN <= orig.source_duration - sp <= i64::MAX
                &&& forall|mid: Project, left: Clip|
                    #[trigger] clips_replaced(pre, mid, t0, clips_at(pre, t0).remove(i)) && #[trigger] is_left_half(
                        left,
                        orig,
                        sp,
                    ) ==> insertable(mid, t0, left)
                &&& forall|mid: Project, mid2: Project, left: Clip, right: Clip, r1: Result<(), EngineError>|
                    #![trigger inserted_into(mid, mid2, t0, left, r1), is_right_half(right, orig, at_frame, sp)]
                    clips_replaced(pre, mid, t0, clips_at(pre, t0).remove(i)) && is_left_half(left, orig, sp)
                        && inserted_into(mid, mid2, t0, left, r1) && r1 is Ok && is_right_half(
                        right,
                        orig,
                        at_frame,
                        sp,
                    ) ==> insertable(mid2, t0, right)
            }
        },
        _ => true,
    }
}

/// What a structural command does.
pub open spec fn structure_outcome(pre: Project, cmd: EditCommand, post: Project, r: Result<(), EngineError>) -> bool {
    match cmd {
        EditCommand::InsertClip { asset_id, track_id, position, source_in, source_out, link_group_id } => match track_at(
            pre.timeline,
            track_id,
        ) {
            None => r == Err::<(), EngineError>(EngineError::Generic("track not found")) && post == pre,
            Some(t) => exists|c: Clip|
                is_new_clip(
                    c,
                    insert_label(pre, asset_id),
                    asset_id,
                    position,
                    source_in,
                    (source_out - source_in) as i64,
                    link_group_id,
                ) && #[trigger] inserted_into(pre, post, t, c, r),
        },
        EditCommand::RemoveClip { clip_id } => match owner_at(pre.timeline, clip_id) {
            None => r == Err::<(), EngineError>(EngineError::UnknownClip(clip_id)) && post == pre,
            Some(_) => r is Ok && match located(pre, clip_id) {
                Some((t, i)) => clips_replaced(pre, post, t, clips_at(pre, t).remove(i)),
                None => post == pre,
            },
        },
        EditCommand::RippleDelete { clip_id } => match owner_at(pre.timeline, clip_id) {
            None => r == Err::<(), EngineError>(EngineError::UnknownClip(clip_id)) && post == pre,
            Some(_) => r is Ok && match located(pre, clip_id) {
                Some((t, i)) => clips_replaced(
                    pre,
                    post,
                    t,
                    rippled(clips_at(pre, t).remove(i), clips_at(pre, t)[i].timeline_in, clips_at(pre, t)[i].dur()),
                ),
                None => post == pre,
            },
        },
        EditCommand::MoveClip { clip_id, new_track_id, new_position } => match located(pre, clip_id) {
            None => r == Err::<(), EngineError>(EngineError::UnknownClip(clip_id)) && post == pre,
            Some((t0, i)) => exists|mid: Project|
                #[trigger] clips_replaced(pre, mid, t0, clips_at(pre, t0).remove(i)) && match track_at(
                    mid.timeline,
                    new_track_id,
                ) {
                    None => r == Err::<(), EngineError>(EngineError::Generic("target track not found"))
                        && post == mid,
                    Some(t1) => inserted_into(
                        mid,
                        post,
                        t1,
                        Clip { timeline_in: new_position, ..clips_at(pre, t0)[i] },
                        r,
                    ),
                },
        },
        EditCommand::SplitClip { clip_id, at_frame } => match located(pre, clip_id) {
            None => r == Err::<(), EngineError>(EngineError::UnknownClip(clip_id)) && post == pre,
            Some((t0, i)) => {
                let orig = clips_at(pre, t0)[i];
                let sp = at_frame - orig.timeline_in;
                exists|mid: Project, mid2: Project, left: Clip, right: Clip, r1: Result<(), EngineError>|
                    #[trigger] clips_replaced(pre, mid, t0, clips_at(pre, t0).remove(i)) && #[trigger] is_left_half(
                        left,
                        orig,
                        sp,
                    ) && #[trigger] is_right_half(right, orig, at_frame, sp) && #[trigger] inserted_into(
                        mid,
                        mid2,
                        t0,
                        left,
                        r1,
                    ) && (r1 is Err ==> post == mid2 && r == r1) && (r1 is Ok ==> inserted_into(
                        mid2,
                        post,
                        t0,
                        right,
                        r,
                    ))
            },
        },
        _ => false,
    }
}

pub proof fn lemma_unit_speed_len(sd: int)
    ensures
        crate::clip::clip_len(sd, Rational { num: 1, den: 1 }) == crate::num::sat_i64(sd),
{
    assert(crate::num::round_half_away(sd * 1, 1) == sd);
}

/// Place a trimmed range of an asset onto a track as a new clip.
fn insert_clip_cmd(
    project: &mut Project,
    asset_id: AssetId,
    track_id: TrackId,
    position: i64,
    source_in: i64,
    source_out: i64,
    link_group_id: Option<u64>,
) -> (r: Result<(), EngineError>)
    requires
        structure_fits(
            *old(project),
            EditCommand::InsertClip { asset_id, track_id, position, source_in, source_out, link_group_id },
        ),
    ensures
        structure_outcome(
            *old(project),
            EditCommand::InsertClip { asset_id, track_id, position, source_in, source_out, link_group_id },
            *final(project),
            r,
        ),
{
    let ghost pre = *project;
    let source_duration = source_out - source_in;
    let label = match project.asset(asset_id) {
        Some(a) => String::from_str(a.filename_stem()),
        None => String::from_str("clip"),
    };
    let t = match find_track(&project.timeline, track_id) {
        Some(t) => t,
        None => {
            return Err(EngineError::Generic("track not found"));
        },
    };
    let clip = Clip {
        id: ClipId::next(),
        label,
        asset_id,
        timeline_in: position,
        source_in,
        source_duration,
        transform: Transform::default(),
        blend_mode: BlendMode::default(),
        mask: None,
        fade: None,
        transition: None,
        speed: Rational::new(1, 1),
        speed_curve: Vec::new(),
        reverse: false,
        freeze_frame: None,
        frame_blending: false,
        spatial_conform: None,
        gain_db: None,
        volume_keyframes: None,
        mute_audio: false,
        filters: Vec::new(),
        keyframes: Vec::new(),
        link_group_id,
        generator: None,
    };
    let ghost c = clip;
    proof {
        lemma_unit_speed_len(source_duration as int);
        assert(is_new_clip(c, insert_label(pre, asset_id), asset_id, position, source_in, source_duration, link_group_id));
    }
    let rr = project.timeline.tracks[t].insert_clip(clip);
    let r = match rr {
        Ok(()) => Ok(()),
        Err(e) => Err(EngineError::Model(e)),
    };
    proof {
        let tr = pre.timeline.tracks@[t as int];
        assert(insert_clip_outcome(tr.id, tr.kind, tr.clips@, c, clips_at(*project, t as int), rr));
        assert(inserted_into(pre, *project, t as int, c, r));
    }
    r
}


/// Remove a clip, leaving a gap.
fn remove_clip_cmd(project: &mut Project, clip_id: ClipId) -> (r: Result<(), EngineError>)
    requires
        structure_fits(*old(project), EditCommand::RemoveClip { clip_id }),
    ensures
        structure_outcome(*old(project), EditCommand::RemoveClip { clip_id }, *final(project), r),
{
    let ghost pre = *project;
    if find_owner(&project.timeline, clip_id).is_none() {
        return Err(EngineError::UnknownClip(clip_id));
    }
    let (t, i) = match locate(project, clip_id) {
        Some(slot) => slot,
        None => {
            return Ok(());
        },
    };
    let mut clips = take_clips(project, t);
    let ghost mid = *project;
    clips.remove(i);
    put_clips(project, t, clips);
    proof {
        lemma_clips_replaced_twice(pre, mid, *project, t as int, Seq::empty(), clips_at(pre, t as int).remove(i as int));
    }
    Ok(())
}

/// Remove a clip and slide the later clips of its track left over the gap.
fn ripple_delete_cmd(project: &mut Project, clip_id: ClipId) -> (r: Result<(), EngineError>)
    requires
        structure_fits(*old(project), EditCommand::RippleDelete { clip_id }),
    ensures
        structure_outcome(*old(project), EditCommand::RippleDelete { clip_id }, *final(project), r),
{
    let ghost pre = *project;
    if find_owner(&project.timeline, clip_id).is_none() {
        return Err(EngineError::UnknownClip(clip_id));
    }
    let (t, i) = match locate(project, clip_id) {
        Some(slot) => slot,
        None => {
            return Ok(());
        },
    };
    let mut clips = take_clips(project, t);
    let ghost mid = *project;
    let rc = clips.remove(i);
    let gap = rc.duration();
    let after = rc.timeline_in;
    let ghost base = clips@;
    let n = clips.len();
    let mut j: usize = 0;
    while j < n
        invariant
            n == base.len(),
            0 <= j <= n,
            ripple_fits(base, after, gap as int),
            clips@.len() == n,
            forall|k: int| 0 <= k < j ==> #[trigger] clips@[k] == shifted(base[k], after, gap as int),
            forall|k: int| j <= k < n ==> #[trigger] clips@[k] == base[k],
        decreases n - j,
    {
        if clips[j].timeline_in > after {
            let v = clips[j].timeline_in - gap;
            clips[j].timeline_in = v;
        }
        j = j + 1;
    }
    assert(clips@ =~= rippled(base, after, gap as int));
    put_clips(project, t, clips);
    proof {
        lemma_clips_replaced_twice(pre, mid, *project, t as int, Seq::empty(), rippled(base, after, gap as int));
    }
    Ok(())
}

/// Move a clip to another track or position.
fn move_clip_cmd(project: &mut Project, clip_id: ClipId, new_track_id: TrackId, new_position: i64) -> (r: Result<(), EngineError>)
    requires
        structure_fits(*old(project), EditCommand::MoveClip { clip_id, new_track_id, new_position }),
    ensures
        structure_outcome(*old(project), EditCommand::MoveClip { clip_id, new_track_id, new_position }, *final(project), r),
{
    let ghost pre = *project;
    let (t0, i) = match locate(project, clip_id) {
        Some(slot) => slot,
        None => {
            return Err(EngineError::UnknownClip(clip_id));
        },
    };
    let mut clips = take_clips(project, t0);
    let ghost mid0 = *project;
    let mut clip = clips.remove(i);
    put_clips(project, t0, clips);
    let ghost mid = *project;
    proof {
        lemma_clips_replaced_twice(pre, mid0, mid, t0 as int, Seq::empty(), clips_at(pre, t0 as int).remove(i as int));
    }
    clip.timeline_in = new_position;
    let ghost moved = clip;
    let t1 = match find_track(&project.timeline, new_track_id) {
        Some(t) => t,
        None => {
            return Err(EngineError::Generic("target track not found"));
        },
    };
    let rr = project.timeline.tracks[t1].insert_clip(clip);
    let r = match rr {
        Ok(()) => Ok(()),
        Err(e) => Err(EngineError::Model(e)),
    };
    proof {
        let tr = mid.timeline.tracks@[t1 as int];
        assert(insert_clip_outcome(tr.id, tr.kind, tr.clips@, moved, clips_at(*project, t1 as int), rr));
        assert(project.timeline.tracks@ =~= mid.timeline.tracks@.update(t1 as int, project.timeline.tracks@[t1 as int]));
        assert(inserted_into(mid, *project, t1 as int, moved, r));
    }
    r
}


/// The left half of `whole` split `split_point` source frames in.
fn left_half(whole: &Clip, split_point: i64) -> (left: Clip)
    ensures
        is_left_half(left, *whole, split_point as int),
{
    Clip {
        id: ClipId::next(),
        label: whole.label.clone().concat(" (A)"),
        asset_id: whole.asset_id,
        timeline_in: whole.timeline_in,
        source_in: whole.source_in,
        source_duration: split_point,
        transform: whole.transform,
        blend_mode: whole.blend_mode,
        mask: whole.mask,
        fade: whole.fade,
        transition: None,
        speed: whole.speed,
        speed_curve: copy_plain(&whole.speed_curve),
        reverse: whole.reverse,
        freeze_frame: whole.freeze_frame,
        frame_blending: whole.frame_blending,
        spatial_conform: whole.spatial_conform,
        gain_db: whole.gain_db,
        volume_keyframes: match &whole.volume_keyframes {
            Some(v) => Some(copy_plain(v)),
            None => None,
        },
        mute_audio: whole.mute_audio,
        filters: copy_vec(&whole.filters),
        keyframes: copy_vec(&whole.keyframes),
        link_group_id: whole.link_group_id,
        generator: match &whole.generator {
            Some(g) => Some(g.deep_copy()),
            None => None,
        },
    }
}

/// Split a clip at timeline frame `at_frame` into two abutting clips.
fn split_clip_cmd(project: &mut Project, clip_id: ClipId, at_frame: i64) -> (r: Result<(), EngineError>)
    requires
        structure_fits(*old(project), EditCommand::SplitClip { clip_id, at_frame }),
    ensures
        structure_outcome(*old(project), EditCommand::SplitClip { clip_id, at_frame }, *final(project), r),
{
    let ghost pre = *project;
    let (t0, i) = match locate(project, clip_id) {
        Some(slot) => slot,
        None => {
            return Err(EngineError::UnknownClip(clip_id));
        },
    };
    let mut clips = take_clips(project, t0);
    let ghost mid0 = *project;
    let whole = clips.remove(i);
    put_clips(project, t0, clips);
    let ghost mid = *project;
    let ghost orig = whole;
    proof {
        lemma_clips_replaced_twice(pre, mid0, mid, t0 as int, Seq::empty(), clips_at(pre, t0 as int).remove(i as int));
    }
    let split_point = at_frame - whole.timeline_in;
    let left = left_half(&whole, split_point);
    let right = Clip {
        id: ClipId::next(),
        label: whole.label.concat(" (B)"),
        asset_id: whole.asset_id,
        timeline_in: at_frame,
        source_in: whole.source_in + split_point,
        source_duration: whole.source_duration - split_point,
        transform: whole.transform,
        blend_mode: whole.blend_mode,
        mask: whole.mask,
        fade: whole.fade,
        transition: None,
        speed: whole.speed,
        speed_curve: whole.speed_curve,
        reverse: whole.reverse,
        freeze_frame: whole.freeze_frame,
        frame_blending: whole.frame_blending,
        spatial_conform: whole.spatial_conform,
        gain_db: whole.gain_db,
        volume_keyframes: whole.volume_keyframes,
        mute_audio: whole.mute_audio,
        filters: whole.filters,
        keyframes: whole.keyframes,
        link_group_id: whole.link_group_id,
        generator: whole.generator,
    };
    let ghost lc = left;
    let ghost rc = right;
    let ghost sp = split_point as int;
    proof {
        assert(is_left_half(lc, orig, sp));
        assert(is_right_half(rc, orig, at_frame, sp));
        assert(insertable(mid, t0 as int, lc));
    }
    let rr1 = project.timeline.tracks[t0].insert_clip(left);
    let r1 = match rr1 {
        Ok(()) => Ok(()),
        Err(e) => Err(EngineError::Model(e)),
    };
    let ghost mid2 = *project;
    proof {
        let tr = mid.timeline.tracks@[t0 as int];
        assert(insert_clip_outcome(tr.id, tr.kind, tr.clips@, lc, clips_at(mid2, t0 as int), rr1));
        assert(mid2.timeline.tracks@ =~= mid.timeline.tracks@.update(t0 as int, mid2.timeline.tracks@[t0 as int]));
        assert(inserted_into(mid, mid2, t0 as int, lc, r1));
    }
    if r1.is_err() {
        return r1;
    }
    proof {
        assert(insertable(mid2, t0 as int, rc));
    }
    let rr2 = project.timeline.tracks[t0].insert_clip(right);
    let r = match rr2 {
        Ok(()) => Ok(()),
        Err(e) => Err(EngineError::Model(e)),
    };
    proof {
        let tr = mid2.timeline.tracks@[t0 as int];
        assert(insert_clip_outcome(tr.id, tr.kind, tr.clips@, rc, clips_at(*project, t0 as int), rr2));
        assert(project.timeline.tracks@ =~= mid2.timeline.tracks@.update(t0 as int, project.timeline.tracks@[t0 as int]));
        assert(inserted_into(mid2, *project, t0 as int, rc, r));
    }
    r
}

/// Apply a command that adds, removes, moves or splits clips.
pub fn apply_structure_cmd(project: &mut Project, cmd: EditCommand) -> (r: Result<(), EngineError>)
    requires
        is_structure_cmd(cmd),
        structure_fits(*old(project), cmd),
    ensures
        structure_outcome(*old(project), cmd, *final(project), r),
{
    match cmd {
        EditCommand::InsertClip { asset_id, track_id, position, source_in, source_out, link_group_id } => insert_clip_cmd(
            project,
            asset_id,
            track_id,
            position,
            source_in,
            source_out,
            link_group_id,
        ),
        EditCommand::RemoveClip { clip_id } => remove_clip_cmd(project, clip_id),
        EditCommand::RippleDelete { clip_id } => ripple_delete_cmd(project, clip_id),
        EditCommand::MoveClip { clip_id, new_track_id, new_position } => move_clip_cmd(
            project,
            clip_id,
            new_track_id,
            new_position,
        ),
        EditCommand::SplitClip { clip_id, at_frame } => split_clip_cmd(project, clip_id, at_frame),
        _ => Ok(()),
    }
}

} // verus!
