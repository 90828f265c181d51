//! The rules that turn one edit command into a change of a project.
//!
//! Each command family has a spec predicate relating the project before the
//! command, the project after it and the result; the executable functions
//! below prove that they meet it.

use vstd::prelude::*;
use crate::clip::{BlendMode, Clip, Fade, SpatialConform, Transition};
use crate::num::F32Bits;
use crate::time::{Rational, TimeRange};
use crate::transform::Transform;
use crate::commands::EditCommand;
use crate::effect::{EffectInstance, ParamValue, Params, inserted};
use crate::error::ModelError;
use crate::ids::{AssetId, ClipId, EffectId, KeyframeId, MarkerId, TrackId};
use crate::marker::Marker;
use crate::project::asset_pos;
use crate::timeline::{first_track_pos, kind_filter};
use crate::track::{TrackColor, TrackHeight, TrackKind};
use crate::keyframe::Keyframe;
use crate::project::Project;
use crate::timeline::Timeline;
use crate::track::Track;

verus! {

/// Errors an edit (or another engine operation) can end in.
#[derive(Debug, Clone)]
pub enum EngineError {
    /// The model refused the change.
    Model(ModelError),
    UnknownMedia(AssetId),
    UnknownClip(ClipId),
    ExportInProgress,
    ExportFailed(String),
    /// A failure described by a fixed message.
    Generic(&'static str),
}

/// Only the tracks of the timeline differ between `pre` and `post`.
pub open spec fn only_tracks_changed(pre: Project, post: Project) -> bool {
    &&& post == (Project { timeline: post.timeline, ..pre })
    &&& post.timeline == (Timeline { tracks: post.timeline.tracks, ..pre.timeline })
}

/// Track `b` is track `a` with (possibly) other clips.
pub open spec fn same_track_but_clips(a: Track, b: Track) -> bool {
    b == (Track { clips: b.clips, ..a })
}

/// `post` is `pre` with the track at `t` replaced by `nt`.
pub open spec fn track_replaced(pre: Project, post: Project, t: int, nt: Track) -> bool {
    &&& 0 <= t < pre.timeline.tracks@.len()
    &&& only_tracks_changed(pre, post)
    &&& post.timeline.tracks@ == pre.timeline.tracks@.update(t, nt)
}

/// `post` is `pre` with the clips of the track at `t` replaced by `clips`.
pub open spec fn clips_replaced(pre: Project, post: Project, t: int, clips: Seq<Clip>) -> bool {
    let nt = post.timeline.tracks@[t];
    &&& track_replaced(pre, post, t, nt)
    &&& same_track_but_clips(pre.timeline.tracks@[t], nt)
    &&& nt.clips@ == clips
}

/// `post` is `pre` with the clip at `(t, k)` replaced by one that `rel`
/// relates to the old clip.
pub open spec fn clip_rewritten(
    pre: Project,
    post: Project,
    t: int,
    k: int,
    rel: spec_fn(Clip, Clip) -> bool,
) -> bool {
    let old_clips = pre.timeline.tracks@[t].clips@;
    let nc = post.timeline.tracks@[t].clips@[k];
    &&& 0 <= k < old_clips.len()
    &&& clips_replaced(pre, post, t, old_clips.update(k, nc))
    &&& rel(old_clips[k], nc)
}

/// Where the timeline's write lookup finds the clip `cid`.
#[verifier::opaque]
pub open spec fn write_slot(tl: Timeline, cid: ClipId) -> Option<(int, int)> {
    tl.clip_write_slot(cid)
}

/// Position (track, clip) of the clip that an in-place edit changes.
pub fn find_clip_slot(tl: &Timeline, cid: ClipId) -> (r: Option<(usize, usize)>)
    ensures
        r matches Some((t, k)) ==> write_slot(*tl, cid) == Some((t as int, k as int)) && t
            < tl.tracks@.len() && k < tl.tracks@[t as int].clips@.len() && tl.tracks@[t as int].clips@[k as int].id
            == cid,
        r is None ==> write_slot(*tl, cid) is None,
{
    proof {
        reveal(write_slot);
    }
    tl.clip_slot_mut(cid)
}

/// A command that edits one clip found through the timeline's write lookup:
/// an unknown clip is reported and changes nothing; a known one is replaced
/// by a clip that `rel` relates to it.
pub open spec fn clip_edit(
    pre: Project,
    post: Project,
    r: Result<(), EngineError>,
    cid: ClipId,
    rel: spec_fn(Clip, Clip) -> bool,
) -> bool {
    match write_slot(pre.timeline, cid) {
        Some((t, k)) => r is Ok && clip_rewritten(pre, post, t, k, rel),
        None => r == Err::<(), EngineError>(EngineError::UnknownClip(cid)) && post == pre,
    }
}

/// Clip `b` is clip `a` with other filters.
pub open spec fn same_clip_but_filters(a: Clip, b: Clip) -> bool {
    b == (Clip { filters: b.filters, ..a })
}

/// Clip `b` is clip `a` with other keyframes.
pub open spec fn same_clip_but_keyframes(a: Clip, b: Clip) -> bool {
    b == (Clip { keyframes: b.keyframes, ..a })
}

/// Position of the first effect with id `id`.
pub open spec fn effect_pos(s: Seq<EffectInstance>, id: EffectId) -> Option<int> {
    if exists|i: int| 0 <= i < s.len() && s[i].id == id {
        Some(choose|i: int| 0 <= i < s.len() && s[i].id == id && forall|j: int| 0 <= j < i ==> s[j].id != id)
    } else {
        None
    }
}

/// Position of the first keyframe with id `id`.
pub open spec fn keyframe_pos(s: Seq<Keyframe>, id: KeyframeId) -> Option<int> {
    if exists|i: int| 0 <= i < s.len() && s[i].id == id {
        Some(choose|i: int| 0 <= i < s.len() && s[i].id == id && forall|j: int| 0 <= j < i ==> s[j].id != id)
    } else {
        None
    }
}

/// The effects of `s` whose id is not `id`, in order.
pub open spec fn effects_without(s: Seq<EffectInstance>, id: EffectId) -> Seq<EffectInstance> {
    s.filter(|e: EffectInstance| e.id != id)
}

/// The keyframes of `s` whose id is not `id`, in order.
pub open spec fn keyframes_without(s: Seq<Keyframe>, id: KeyframeId) -> Seq<Keyframe> {
    s.filter(|k: Keyframe| k.id != id)
}

/// Position of the first effect of `v` with id `id`.
pub fn find_effect(v: &Vec<EffectInstance>, id: EffectId) -> (r: Option<usize>)
    ensures
        r matches Some(i) ==> effect_pos(v@, id) == Some(i as int) && i < v@.len(),
        r is None ==> effect_pos(v@, id) is None,
{
    let mut i: usize = 0;
    while i < v.len()
        invariant
            0 <= i <= v@.len(),
            forall|j: int| 0 <= j < i ==> v@[j].id != id,
        decreases v@.len() - i,
    {
        if v[i].id == id {
            proof {
                let k = effect_pos(v@, id)->0;
                if k < i {
                    assert(v@[k].id != id);
                }
                if i < k {
                    assert(v@[i as int].id != id);
                }
            }
            return Some(i);
        }
        i = i + 1;
    }
    None
}

/// Position of the first keyframe of `v` with id `id`.
pub fn find_keyframe(v: &Vec<Keyframe>, id: KeyframeId) -> (r: Option<usize>)
    ensures
        r matches Some(i) ==> keyframe_pos(v@, id) == Some(i as int) && i < v@.len(),
        r is None ==> keyframe_pos(v@, id) is None,
{
    let mut i: usize = 0;
    while i < v.len()
        invariant
            0 <= i <= v@.len(),
            forall|j: int| 0 <= j < i ==> v@[j].id != id,
        decreases v@.len() - i,
    {
        if v[i].id == id {
            proof {
                let k = keyframe_pos(v@, id)->0;
                if k < i {
                    assert(v@[k].id != id);
                }
                if i < k {
                    assert(v@[i as int].id != id);
                }
            }
            return Some(i);
        }
        i = i + 1;
    }
    None
}

/// Drop every effect with id `id`, keeping the others in order.
pub fn retain_effects_without(v: &mut Vec<EffectInstance>, id: EffectId)
    ensures
        final(v)@ == effects_without(old(v)@, id),
{
    let ghost orig = v@;
    let ghost pred = |e: EffectInstance| e.id != id;
    let mut i: usize = 0;
    let ghost mut j: int = 0;
    proof {
        reveal(Seq::filter);
        assert(orig.take(0).filter(pred) =~= Seq::<EffectInstance>::empty());
        assert(orig.skip(0) =~= orig);
    }
    while i < v.len()
        invariant
            0 <= j <= orig.len(),
            pred == (|e: EffectInstance| e.id != id),
            i == orig.take(j).filter(pred).len(),
            v@ =~= orig.take(j).filter(pred) + orig.skip(j),
        decreases orig.len() - j,
    {
        proof {
            reveal(Seq::filter);
            assert(orig.take(j + 1).drop_last() =~= orig.take(j));
            assert(v@[i as int] == orig[j]);
        }
        if v[i].id == id {
            v.remove(i);
            proof {
                reveal(Seq::filter);
                let s = orig.take(j + 1);
                assert(s.drop_last() =~= orig.take(j));
                assert(s.last() == orig[j]);
                assert(!pred(s.last()));
                assert(s.len() > 0);
                assert(s.filter(pred) == s.drop_last().filter(pred));
                assert(s.filter(pred) == orig.take(j).filter(pred));
                assert(orig.skip(j + 1) =~= orig.skip(j).remove(0));
                j = j + 1;
            }
        } else {
            proof {
                reveal(Seq::filter);
                let s = orig.take(j + 1);
                assert(s.drop_last() =~= orig.take(j));
                assert(s.last() == orig[j]);
                assert(s.filter(pred) == orig.take(j).filter(pred).push(orig[j]));
                j = j + 1;
            }
            i = i + 1;
        }
    }
    proof {
        assert(j == orig.len());
        assert(orig.take(j) =~= orig);
    }
}

/// Drop every keyframe with id `id`, keeping the others in order.
pub fn retain_keyframes_without(v: &mut Vec<Keyframe>, id: KeyframeId)
    ensures
        final(v)@ == keyframes_without(old(v)@, id),
{
    let ghost orig = v@;
    let ghost pred = |k: Keyframe| k.id != id;
    let mut i: usize = 0;
    let ghost mut j: int = 0;
    proof {
        reveal(Seq::filter);
        assert(orig.take(0).filter(pred) =~= Seq::<Keyframe>::empty());
        assert(orig.skip(0) =~= orig);
    }
    while i < v.len()
        invariant
            0 <= j <= orig.len(),
            pred == (|k: Keyframe| k.id != id),
            i == orig.take(j).filter(pred).len(),
            v@ =~= orig.take(j).filter(pred) + orig.skip(j),
        decreases orig.len() - j,
    {
        proof {
            reveal(Seq::filter);
            assert(orig.take(j + 1).drop_last() =~= orig.take(j));
            assert(v@[i as int] == orig[j]);
        }
        if v[i].id == id {
            v.remove(i);
            proof {
                reveal(Seq::filter);
                let s = orig.take(j + 1);
                assert(s.drop_last() =~= orig.take(j));
                assert(s.last() == orig[j]);
                assert(s.filter(pred) == orig.take(j).filter(pred));
                assert(orig.skip(j + 1) =~= orig.skip(j).remove(0));
                j = j + 1;
            }
        } else {
            proof {
                reveal(Seq::filter);
                let s = orig.take(j + 1);
                assert(s.drop_last() =~= orig.take(j));
                assert(s.last() == orig[j]);
                assert(s.filter(pred) == orig.take(j).filter(pred).push(orig[j]));
                j = j + 1;
            }
            i = i + 1;
        }
    }
    proof {
        assert(j == orig.len());
        assert(orig.take(j) =~= orig);
    }
}


/// `b` is effect `a` after setting parameter `key` to `value`: bound in the
/// parameter object, or replacing a non-object value by `{key: value}`.
pub open spec fn param_set(a: EffectInstance, b: EffectInstance, key: Seq<char>, value: ParamValue) -> bool {
    &&& b.id == a.id && b.kind == a.kind && b.enabled == a.enabled
    &&& match a.params {
        Params::Object(pre) => b.params matches Params::Object(post) && inserted(pre@, post@, key, value),
        Params::Other(_) => b.params matches Params::Object(post) && post@.len() == 1 && post@[0].0@ == key
            && post@[0].1 == value,
    }
}

/// The filters of `b` are those of `a` after setting parameter `key` on the
/// first filter with id `fid` (no change when there is none).
pub open spec fn filter_param_set(a: Clip, b: Clip, fid: EffectId, key: Seq<char>, value: ParamValue) -> bool {
    &&& same_clip_but_filters(a, b)
    &&& match effect_pos(a.filters@, fid) {
        Some(i) => b.filters@ == a.filters@.update(i, b.filters@[i]) && param_set(
            a.filters@[i],
            b.filters@[i],
            key,
            value,
        ),
        None => b.filters@ == a.filters@,
    }
}

/// The commands that edit a single clip in place.
pub open spec fn is_clip_edit(cmd: EditCommand) -> bool {
    match cmd {
        EditCommand::SetClipSpeed { .. } | EditCommand::SetClipTransform { .. } | EditCommand::TrimClip {
            ..
        } | EditCommand::SlipClip { .. } | EditCommand::AddFilter { .. } | EditCommand::RemoveFilter {
            ..
        } | EditCommand::SetFilterParam { .. } | EditCommand::AddKeyframe { .. }
        | EditCommand::RemoveKeyframe { .. } | EditCommand::MoveKeyframe { .. }
        | EditCommand::ToggleClipMute { .. } | EditCommand::SetClipGain { .. } | EditCommand::SetClipFade {
            ..
        } | EditCommand::SetClipBlendMode { .. } | EditCommand::SetClipLabel { .. }
        | EditCommand::SetClipTransition { .. } | EditCommand::SetClipReverse { .. }
        | EditCommand::SetClipFreezeFrame { .. } | EditCommand::SetClipFrameBlending { .. }
        | EditCommand::SetClipSpatialConform { .. } | EditCommand::RemovePlugin { .. }
        | EditCommand::SetPluginParam { .. } => true,
        _ => false,
    }
}

/// A clip edit does not overflow: a trim's range length and a slip's new
/// source start fit in `i64`.
pub open spec fn clip_edit_fits(pre: Project, cmd: EditCommand) -> bool {
    match cmd {
        EditCommand::TrimClip { new_source_range, .. } => i64::MIN <= new_source_range.end
            - new_source_range.start <= i64::MAX,
        EditCommand::SlipClip { clip_id, delta } => match write_slot(pre.timeline, clip_id) {
            Some((t, k)) => i64::MIN <= pre.timeline.tracks@[t].clips@[k].source_in + delta <= i64::MAX,
            None => true,
        },
        _ => true,
    }
}

/// What a clip edit does to the clip it finds.
pub open spec fn clip_edit_outcome(pre: Project, cmd: EditCommand, post: Project, r: Result<(), EngineError>) -> bool {
    match cmd {
        EditCommand::SetClipSpeed { clip_id, speed } => clip_edit(
            pre,
            post,
            r,
            clip_id,
            |a: Clip, b: Clip| b == (Clip { speed, ..a }),
        ),
        EditCommand::SetClipTransform { clip_id, transform } => clip_edit(
            pre,
            post,
            r,
            clip_id,
            |a: Clip, b: Clip| b == (Clip { transform, ..a }),
        ),
        EditCommand::TrimClip { clip_id, new_source_range } => clip_edit(
            pre,
            post,
            r,
            clip_id,
            |a: Clip, b: Clip|
                b == (Clip {
                    source_in: new_source_range.start,
                    source_duration: (new_source_range.end - new_source_range.start) as i64,
                    ..a
                }),
        ),
        EditCommand::SlipClip { clip_id, delta } => clip_edit(
            pre,
            post,
            r,
            clip_id,
            |a: Clip, b: Clip|
                b == (Clip {
                    source_in: if a.source_in + delta < 0 { 0 } else { (a.source_in + delta) as i64 },
                    ..a
                }),
        ),
        EditCommand::AddFilter { clip_id, filter } => clip_edit(
            pre,
            post,
            r,
            clip_id,
            |a: Clip, b: Clip| same_clip_but_filters(a, b) && b.filters@ == a.filters@.push(filter),
        ),
        EditCommand::RemoveFilter { clip_id, filter_id } => clip_edit(
            pre,
            post,
            r,
            clip_id,
            |a: Clip, b: Clip|
                same_clip_but_filters(a, b) && b.filters@ == effects_without(a.filters@, filter_id),
        ),
        EditCommand::RemovePlugin { clip_id, effect_id } => clip_edit(
            pre,
            post,
            r,
            clip_id,
            |a: Clip, b: Clip|
                same_clip_but_filters(a, b) && b.filters@ == effects_without(a.filters@, effect_id),
        ),
        EditCommand::SetFilterParam { clip_id, filter_id, param_name, value } => clip_edit(
            pre,
            post,
            r,
            clip_id,
            |a: Clip, b: Clip| filter_param_set(a, b, filter_id, param_name@, value),
        ),
        EditCommand::SetPluginParam { clip_id, effect_id, param_name, value } => clip_edit(
            pre,
            post,
            r,
            clip_id,
            |a: Clip, b: Clip| filter_param_set(a, b, effect_id, param_name@, value),
        ),
        EditCommand::AddKeyframe { clip_id, keyframe } => clip_edit(
            pre,
            post,
            r,
            clip_id,
            |a: Clip, b: Clip|
                same_clip_but_keyframes(a, b) && b.keyframes@ == keyframes_without(
                    a.keyframes@,
                    keyframe.id,
                ).push(keyframe),
        ),
        EditCommand::RemoveKeyframe { clip_id, keyframe_id } => clip_edit(
            pre,
            post,
            r,
            clip_id,
            |a: Clip, b: Clip|
                same_clip_but_keyframes(a, b) && b.keyframes@ == keyframes_without(a.keyframes@, keyframe_id),
        ),
        EditCommand::MoveKeyframe { clip_id, keyframe_id, new_frame } => clip_edit(
            pre,
            post,
            r,
            clip_id,
            |a: Clip, b: Clip|
                same_clip_but_keyframes(a, b) && match keyframe_pos(a.keyframes@, keyframe_id) {
                    Some(i) => b.keyframes@ == a.keyframes@.update(
                        i,
                        Keyframe { at_frame: new_frame, ..a.keyframes@[i] },
                    ),
                    None => b.keyframes@ == a.keyframes@,
                },
        ),
        EditCommand::ToggleClipMute { clip_id } => clip_edit(
            pre,
            post,
            r,
            clip_id,
            |a: Clip, b: Clip| b == (Clip { mute_audio: !a.mute_audio, ..a }),
        ),
        EditCommand::SetClipGain { clip_id, gain_db } => clip_edit(
            pre,
            post,
            r,
            clip_id,
            |a: Clip, b: Clip| b == (Clip { gain_db: Some(gain_db), ..a }),
        ),
        EditCommand::SetClipFade { clip_id, fade } => clip_edit(
            pre,
            post,
            r,
            clip_id,
            |a: Clip, b: Clip| b == (Clip { fade, ..a }),
        ),
        EditCommand::SetClipBlendMode { clip_id, blend_mode } => clip_edit(
            pre,
            post,
            r,
            clip_id,
            |a: Clip, b: Clip| b == (Clip { blend_mode, ..a }),
        ),
        EditCommand::SetClipLabel { clip_id, label } => clip_edit(
            pre,
            post,
            r,
            clip_id,
            |a: Clip, b: Clip| b == (Clip { label, ..a }),
        ),
        EditCommand::SetClipTransition { clip_id, transition } => clip_edit(
            pre,
            post,
            r,
            clip_id,
            |a: Clip, b: Clip| b == (Clip { transition, ..a }),
        ),
        EditCommand::SetClipReverse { clip_id, reverse } => clip_edit(
            pre,
            post,
            r,
            clip_id,
            |a: Clip, b: Clip| b == (Clip { reverse, ..a }),
        ),
        EditCommand::SetClipFreezeFrame { clip_id, freeze_frame } => clip_edit(
            pre,
            post,
            r,
            clip_id,
            |a: Clip, b: Clip| b == (Clip { freeze_frame, ..a }),
        ),
        EditCommand::SetClipFrameBlending { clip_id, enabled } => clip_edit(
            pre,
            post,
            r,
            clip_id,
            |a: Clip, b: Clip| b == (Clip { frame_blending: enabled, ..a }),
        ),
        EditCommand::SetClipSpatialConform { clip_id, conform } => clip_edit(
            pre,
            post,
            r,
            clip_id,
            |a: Clip, b: Clip| b == (Clip { spatial_conform: conform, ..a }),
        ),
        _ => false,
    }
}

/// Set the clip's playback speed.
fn set_clip_speed(project: &mut Project, clip_id: ClipId, speed: Rational) -> (r: Result<(), EngineError>)
    ensures
        clip_edit_outcome(*old(project), EditCommand::SetClipSpeed { clip_id, speed }, *final(project), r),
{
    match find_clip_slot(&project.timeline, clip_id) {
        None => Err(EngineError::UnknownClip(clip_id)),
        Some((t, k)) => {
            let c = &mut project.timeline.tracks[t].clips[k];
            c.speed = speed;
            Ok(())
        },
    }
}

/// Set the clip's transform.
fn set_clip_transform(project: &mut Project, clip_id: ClipId, transform: Transform) -> (r: Result<(), EngineError>)
    ensures
        clip_edit_outcome(*old(project), EditCommand::SetClipTransform { clip_id, transform }, *final(project), r),
{
    match find_clip_slot(&project.timeline, clip_id) {
        None => Err(EngineError::UnknownClip(clip_id)),
        Some((t, k)) => {
            let c = &mut project.timeline.tracks[t].clips[k];
            c.transform = transform;
            Ok(())
        },
    }
}

/// Set the clip's source range.
fn trim_clip(project: &mut Project, clip_id: ClipId, new_source_range: TimeRange) -> (r: Result<(), EngineError>)
    requires
        clip_edit_fits(*old(project), EditCommand::TrimClip { clip_id, new_source_range }),
    ensures
        clip_edit_outcome(*old(project), EditCommand::TrimClip { clip_id, new_source_range }, *final(project), r),
{
    match find_clip_slot(&project.timeline, clip_id) {
        None => Err(EngineError::UnknownClip(clip_id)),
        Some((t, k)) => {
            let c = &mut project.timeline.tracks[t].clips[k];
            c.source_in = new_source_range.start;
            c.source_duration = new_source_range.end - new_source_range.start;
            Ok(())
        },
    }
}

/// Slide the clip's source start by `delta`, stopping at 0.
fn slip_clip(project: &mut Project, clip_id: ClipId, delta: i64) -> (r: Result<(), EngineError>)
    requires
        clip_edit_fits(*old(project), EditCommand::SlipClip { clip_id, delta }),
    ensures
        clip_edit_outcome(*old(project), EditCommand::SlipClip { clip_id, delta }, *final(project), r),
{
    match find_clip_slot(&project.timeline, clip_id) {
        None => Err(EngineError::UnknownClip(clip_id)),
        Some((t, k)) => {
            let c = &mut project.timeline.tracks[t].clips[k];
            let s = c.source_in + delta;
            c.source_in = if s < 0 { 0 } else { s };
            Ok(())
        },
    }
}

/// Append a filter to the clip.
fn add_filter(project: &mut Project, clip_id: ClipId, filter: EffectInstance) -> (r: Result<(), EngineError>)
    ensures
        clip_edit_outcome(*old(project), EditCommand::AddFilter { clip_id, filter }, *final(project), r),
{
    match find_clip_slot(&project.timeline, clip_id) {
        None => Err(EngineError::UnknownClip(clip_id)),
        Some((t, k)) => {
            let c = &mut project.timeline.tracks[t].clips[k];
            c.filters.push(filter);
            Ok(())
        },
    }
}

/// Drop the clip's filters with the given id.
fn remove_filter(project: &mut Project, clip_id: ClipId, filter_id: EffectId) -> (r: Result<(), EngineError>)
    ensures
        clip_edit_outcome(*old(project), EditCommand::RemoveFilter { clip_id, filter_id }, *final(project), r),
{
    match find_clip_slot(&project.timeline, clip_id) {
        None => Err(EngineError::UnknownClip(clip_id)),
        Some((t, k)) => {
            let c = &mut project.timeline.tracks[t].clips[k];
            retain_effects_without(&mut c.filters, filter_id);
            Ok(())
        },
    }
}

/// Drop the clip's plugin effects with the given id.
fn remove_plugin_effect(project: &mut Project, clip_id: ClipId, effect_id: EffectId) -> (r: Result<(), EngineError>)
    ensures
        clip_edit_outcome(*old(project), EditCommand::RemovePlugin { clip_id, effect_id }, *final(project), r),
{
    match find_clip_slot(&project.timeline, clip_id) {
        None => Err(EngineError::UnknownClip(clip_id)),
        Some((t, k)) => {
            let c = &mut project.timeline.tracks[t].clips[k];
            retain_effects_without(&mut c.filters, effect_id);
            Ok(())
        },
    }
}

/// Set a parameter on the clip's first filter with the given id.
fn set_filter_param(project: &mut Project, clip_id: ClipId, filter_id: EffectId, param_name: String, value: ParamValue) -> (r: Result<(), EngineError>)
    ensures
        clip_edit_outcome(*old(project), EditCommand::SetFilterParam { clip_id, filter_id, param_name, value }, *final(project), r),
{
    match find_clip_slot(&project.timeline, clip_id) {
        None => Err(EngineError::UnknownClip(clip_id)),
        Some((t, k)) => {
            let c = &mut project.timeline.tracks[t].clips[k];
            match find_effect(&c.filters, filter_id) {
                Some(i) => c.filters[i].set_param(param_name.as_str(), value),
                None => {},
            }
            Ok(())
        },
    }
}

/// Set a parameter on the clip's first plugin effect with the given id.
fn set_plugin_param(project: &mut Project, clip_id: ClipId, effect_id: EffectId, param_name: String, value: ParamValue) -> (r: Result<(), EngineError>)
    ensures
        clip_edit_outcome(*old(project), EditCommand::SetPluginParam { clip_id, effect_id, param_name, value }, *final(project), r),
{
    match find_clip_slot(&project.timeline, clip_id) {
        None => Err(EngineError::UnknownClip(clip_id)),
        Some((t, k)) => {
            let c = &mut project.timeline.tracks[t].clips[k];
            match find_effect(&c.filters, effect_id) {
                Some(i) => c.filters[i].set_param(param_name.as_str(), value),
                None => {},
            }
            Ok(())
        },
    }
}

/// Add a keyframe, replacing any with the same id.
fn add_keyframe(project: &mut Project, clip_id: ClipId, keyframe: Keyframe) -> (r: Result<(), EngineError>)
    ensures
        clip_edit_outcome(*old(project), EditCommand::AddKeyframe { clip_id, keyframe }, *final(project), r),
{
    match find_clip_slot(&project.timeline, clip_id) {
        None => Err(EngineError::UnknownClip(clip_id)),
        Some((t, k)) => {
            let c = &mut project.timeline.tracks[t].clips[k];
            retain_keyframes_without(&mut c.keyframes, keyframe.id);
            c.keyframes.push(keyframe);
            Ok(())
        },
    }
}

/// Drop the clip's keyframes with the given id.
fn remove_keyframe(project: &mut Project, clip_id: ClipId, keyframe_id: KeyframeId) -> (r: Result<(), EngineError>)
    ensures
        clip_edit_outcome(*old(project), EditCommand::RemoveKeyframe { clip_id, keyframe_id }, *final(project), r),
{
    match find_clip_slot(&project.timeline, clip_id) {
        None => Err(EngineError::UnknownClip(clip_id)),
        Some((t, k)) => {
            let c = &mut project.timeline.tracks[t].clips[k];
            retain_keyframes_without(&mut c.keyframes, keyframe_id);
            Ok(())
        },
    }
}

/// Move the clip's first keyframe with the given id.
fn move_keyframe(project: &mut Project, clip_id: ClipId, keyframe_id: KeyframeId, new_frame: i64) -> (r: Result<(), EngineError>)
    ensures
        clip_edit_outcome(*old(project), EditCommand::MoveKeyframe { clip_id, keyframe_id, new_frame }, *final(project), r),
{
    match find_clip_slot(&project.timeline, clip_id) {
        None => Err(EngineError::UnknownClip(clip_id)),
        Some((t, k)) => {
            let c = &mut project.timeline.tracks[t].clips[k];
            match find_keyframe(&c.keyframes, keyframe_id) {
                Some(i) => c.keyframes[i].at_frame = new_frame,
                None => {},
            }
            Ok(())
        },
    }
}

/// Flip the clip's audio mute.
fn toggle_clip_mute(project: &mut Project, clip_id: ClipId) -> (r: Result<(), EngineError>)
    ensures
        clip_edit_outcome(*old(project), EditCommand::ToggleClipMute { clip_id }, *final(project), r),
{
    match find_clip_slot(&project.timeline, clip_id) {
        None => Err(EngineError::UnknownClip(clip_id)),
        Some((t, k)) => {
            let c = &mut project.timeline.tracks[t].clips[k];
            c.mute_audio = !c.mute_audio;
            Ok(())
        },
    }
}

/// Set the clip's gain.
fn set_clip_gain(project: &mut Project, clip_id: ClipId, gain_db: F32Bits) -> (r: Result<(), EngineError>)
    ensures
        clip_edit_outcome(*old(project), EditCommand::SetClipGain { clip_id, gain_db }, *final(project), r),
{
    match find_clip_slot(&project.timeline, clip_id) {
        None => Err(EngineError::UnknownClip(clip_id)),
        Some((t, k)) => {
            let c = &mut project.timeline.tracks[t].clips[k];
            c.gain_db = Some(gain_db);
            Ok(())
        },
    }
}

/// Set or clear the clip's fades.
fn set_clip_fade(project: &mut Project, clip_id: ClipId, fade: Option<Fade>) -> (r: Result<(), EngineError>)
    ensures
        clip_edit_outcome(*old(project), EditCommand::SetClipFade { clip_id, fade }, *final(project), r),
{
    match find_clip_slot(&project.timeline, clip_id) {
        None => Err(EngineError::UnknownClip(clip_id)),
        Some((t, k)) => {
            let c = &mut project.timeline.tracks[t].clips[k];
            c.fade = fade;
            Ok(())
        },
    }
}

/// Set the clip's blend mode.
fn set_clip_blend_mode(project: &mut Project, clip_id: ClipId, blend_mode: BlendMode) -> (r: Result<(), EngineError>)
    ensures
        clip_edit_outcome(*old(project), EditCommand::SetClipBlendMode { clip_id, blend_mode }, *final(project), r),
{
    match find_clip_slot(&project.timeline, clip_id) {
        None => Err(EngineError::UnknownClip(clip_id)),
        Some((t, k)) => {
            let c = &mut project.timeline.tracks[t].clips[k];
            c.blend_mode = blend_mode;
            Ok(())
        },
    }
}

/// Rename the clip.
fn set_clip_label(project: &mut Project, clip_id: ClipId, label: String) -> (r: Result<(), EngineError>)
    ensures
        clip_edit_outcome(*old(project), EditCommand::SetClipLabel { clip_id, label }, *final(project), r),
{
    match find_clip_slot(&project.timeline, clip_id) {
        None => Err(EngineError::UnknownClip(clip_id)),
        Some((t, k)) => {
            let c = &mut project.timeline.tracks[t].clips[k];
            c.label = label;
            Ok(())
        },
    }
}

/// Set or clear the clip's transition.
fn set_clip_transition(project: &mut Project, clip_id: ClipId, transition: Option<Transition>) -> (r: Result<(), EngineError>)
    ensures
        clip_edit_outcome(*old(project), EditCommand::SetClipTransition { clip_id, transition }, *final(project), r),
{
    match find_clip_slot(&project.timeline, clip_id) {
        None => Err(EngineError::UnknownClip(clip_id)),
        Some((t, k)) => {
            let c = &mut project.timeline.tracks[t].clips[k];
            c.transition = transition;
            Ok(())
        },
    }
}

/// Set the clip's playback direction.
fn set_clip_reverse(project: &mut Project, clip_id: ClipId, reverse: bool) -> (r: Result<(), EngineError>)
    ensures
        clip_edit_outcome(*old(project), EditCommand::SetClipReverse { clip_id, reverse }, *final(project), r),
{
    match find_clip_slot(&project.timeline, clip_id) {
        None => Err(EngineError::UnknownClip(clip_id)),
        Some((t, k)) => {
            let c = &mut project.timeline.tracks[t].clips[k];
            c.reverse = reverse;
            Ok(())
        },
    }
}

/// Set or clear the clip's freeze frame.
fn set_clip_freeze_frame(project: &mut Project, clip_id: ClipId, freeze_frame: Option<i64>) -> (r: Result<(), EngineError>)
    ensures
        clip_edit_outcome(*old(project), EditCommand::SetClipFreezeFrame { clip_id, freeze_frame }, *final(project), r),
{
    match find_clip_slot(&project.timeline, clip_id) {
        None => Err(EngineError::UnknownClip(clip_id)),
        Some((t, k)) => {
            let c = &mut project.timeline.tracks[t].clips[k];
            c.freeze_frame = freeze_frame;
            Ok(())
        },
    }
}

/// Turn frame blending on or off.
fn set_clip_frame_blending(project: &mut Project, clip_id: ClipId, enabled: bool) -> (r: Result<(), EngineError>)
    ensures
        clip_edit_outcome(*old(project), EditCommand::SetClipFrameBlending { clip_id, enabled }, *final(project), r),
{
    match find_clip_slot(&project.timeline, clip_id) {
        None => Err(EngineError::UnknownClip(clip_id)),
        Some((t, k)) => {
            let c = &mut project.timeline.tracks[t].clips[k];
            c.frame_blending = enabled;
            Ok(())
        },
    }
}

/// Set or clear the clip's spatial conform.
fn set_clip_spatial_conform(project: &mut Project, clip_id: ClipId, conform: Option<SpatialConform>) -> (r: Result<(), EngineError>)
    ensures
        clip_edit_outcome(*old(project), EditCommand::SetClipSpatialConform { clip_id, conform }, *final(project), r),
{
    match find_clip_slot(&project.timeline, clip_id) {
        None => Err(EngineError::UnknownClip(clip_id)),
        Some((t, k)) => {
            let c = &mut project.timeline.tracks[t].clips[k];
            c.spatial_conform = conform;
            Ok(())
        },
    }
}

/// Apply a command that edits one clip in place.
pub fn apply_clip_edit(project: &mut Project, cmd: EditCommand) -> (r: Result<(), EngineError>)
    requires
        is_clip_edit(cmd),
        clip_edit_fits(*old(project), cmd),
    ensures
        clip_edit_outcome(*old(project), cmd, *final(project), r),
{
    match cmd {
        EditCommand::SetClipSpeed { clip_id, speed } => set_clip_speed(project, clip_id, speed),
        EditCommand::SetClipTransform { clip_id, transform } => set_clip_transform(project, clip_id, transform),
        EditCommand::TrimClip { clip_id, new_source_range } => trim_clip(project, clip_id, new_source_range),
        EditCommand::SlipClip { clip_id, delta } => slip_clip(project, clip_id, delta),
        EditCommand::AddFilter { clip_id, filter } => add_filter(project, clip_id, filter),
        EditCommand::RemoveFilter { clip_id, filter_id } => remove_filter(project, clip_id, filter_id),
        EditCommand::RemovePlugin { clip_id, effect_id } => remove_plugin_effect(project, clip_id, effect_id),
        EditCommand::SetFilterParam { clip_id, filter_id, param_name, value } => set_filter_param(project, clip_id, filter_id, param_name, value),
        EditCommand::SetPluginParam { clip_id, effect_id, param_name, value } => set_plugin_param(project, clip_id, effect_id, param_name, value),
        EditCommand::AddKeyframe { clip_id, keyframe } => add_keyframe(project, clip_id, keyframe),
        EditCommand::RemoveKeyframe { clip_id, keyframe_id } => remove_keyframe(project, clip_id, keyframe_id),
        EditCommand::MoveKeyframe { clip_id, keyframe_id, new_frame } => move_keyframe(project, clip_id, keyframe_id, new_frame),
        EditCommand::ToggleClipMute { clip_id } => toggle_clip_mute(project, clip_id),
        EditCommand::SetClipGain { clip_id, gain_db } => set_clip_gain(project, clip_id, gain_db),
        EditCommand::SetClipFade { clip_id, fade } => set_clip_fade(project, clip_id, fade),
        EditCommand::SetClipBlendMode { clip_id, blend_mode } => set_clip_blend_mode(project, clip_id, blend_mode),
        EditCommand::SetClipLabel { clip_id, label } => set_clip_label(project, clip_id, label),
        EditCommand::SetClipTransition { clip_id, transition } => set_clip_transition(project, clip_id, transition),
        EditCommand::SetClipReverse { clip_id, reverse } => set_clip_reverse(project, clip_id, reverse),
        EditCommand::SetClipFreezeFrame { clip_id, freeze_frame } => set_clip_freeze_frame(project, clip_id, freeze_frame),
        EditCommand::SetClipFrameBlending { clip_id, enabled } => set_clip_frame_blending(project, clip_id, enabled),
        EditCommand::SetClipSpatialConform { clip_id, conform } => set_clip_spatial_conform(project, clip_id, conform),
        _ => Ok(()),
    }
}


/// Where the timeline's track lookup finds the track `id`.
#[verifier::opaque]
pub open spec fn track_at(tl: Timeline, id: TrackId) -> Option<int> {
    tl.track_slot(id)
}

/// Position of the track that a track command changes.
pub fn find_track(tl: &Timeline, id: TrackId) -> (r: Option<usize>)
    ensures
        r matches Some(i) ==> track_at(*tl, id) == Some(i as int) && i < tl.tracks@.len()
            && tl.tracks@[i as int].id == id,
        r is None ==> track_at(*tl, id) is None,
{
    proof {
        reveal(track_at);
    }
    tl.track_index(id)
}

/// A command that edits one track found through the track lookup: nothing
/// happens for an unknown track; a known one is replaced by a track that
/// `rel` relates to it.
pub open spec fn track_edit(pre: Project, post: Project, tid: TrackId, rel: spec_fn(Track, Track) -> bool) -> bool {
    match track_at(pre.timeline, tid) {
        Some(t) => track_replaced(pre, post, t, post.timeline.tracks@[t]) && rel(
            pre.timeline.tracks@[t],
            post.timeline.tracks@[t],
        ),
        None => post == pre,
    }
}

/// `t` is a new, empty, visible, unlocked track with these settings.
pub open spec fn is_new_track(t: Track, kind: TrackKind, name: String, index: usize) -> bool {
    &&& t.id.0 != 0 && t.index == index && t.name == name && t.kind == kind
    &&& t.visible && !t.locked && !t.muted && !t.solo && !t.disabled
    &&& t.color is None && !t.is_primary && t.gain_db is None && t.height == TrackHeight::Medium
    &&& t.clips@.len() == 0 && t.effects@.len() == 0
}

/// The commands that change a track or the list of tracks.
pub open spec fn is_track_cmd(cmd: EditCommand) -> bool {
    match cmd {
        EditCommand::ToggleTrackMute { .. } | EditCommand::ToggleTrackLock { .. }
        | EditCommand::ToggleTrackVisibility { .. } | EditCommand::ToggleTrackDisable { .. }
        | EditCommand::SetTrackColor { .. } | EditCommand::RenameTrack { .. }
        | EditCommand::SetPrimaryTrack { .. } | EditCommand::MoveTrack { .. } | EditCommand::AddTrack {
            ..
        } | EditCommand::RemoveTrack { .. } => true,
        _ => false,
    }
}

/// What a track command does; none of them fails.
pub open spec fn track_cmd_outcome(pre: Project, cmd: EditCommand, post: Project, r: Result<(), EngineError>) -> bool {
    let tracks = pre.timeline.tracks@;
    &&& r is Ok
    &&& match cmd {
        EditCommand::ToggleTrackMute { track_id } => track_edit(
            pre,
            post,
            track_id,
            |a: Track, b: Track| b == (Track { muted: !a.muted, ..a }),
        ),
        EditCommand::ToggleTrackLock { track_id } => track_edit(
            pre,
            post,
            track_id,
            |a: Track, b: Track| b == (Track { locked: !a.locked, ..a }),
        ),
        EditCommand::ToggleTrackVisibility { track_id } => track_edit(
            pre,
            post,
            track_id,
            |a: Track, b: Track| b == (Track { visible: !a.visible, ..a }),
        ),
        EditCommand::ToggleTrackDisable { track_id } => track_edit(
            pre,
            post,
            track_id,
            |a: Track, b: Track| b == (Track { disabled: !a.disabled, ..a }),
        ),
        EditCommand::SetTrackColor { track_id, color } => track_edit(
            pre,
            post,
            track_id,
            |a: Track, b: Track| b == (Track { color, ..a }),
        ),
        EditCommand::RenameTrack { track_id, new_name } => track_edit(
            pre,
            post,
            track_id,
            |a: Track, b: Track| b == (Track { name: new_name, ..a }),
        ),
        EditCommand::SetPrimaryTrack { track_id } => {
            &&& only_tracks_changed(pre, post)
            &&& post.timeline.tracks@.len() == tracks.len()
            &&& forall|i: int|
                0 <= i < tracks.len() ==> #[trigger] post.timeline.tracks@[i] == (Track {
                    is_primary: track_at(pre.timeline, track_id) == Some(i),
                    ..tracks[i]
                })
        },
        EditCommand::MoveTrack { track_id, new_index } => match track_at(pre.timeline, track_id) {
            Some(i) if i != new_index && new_index < tracks.len() => only_tracks_changed(pre, post)
                && post.timeline.tracks@ == tracks.remove(i).insert(new_index as int, tracks[i]),
            _ => post == pre,
        },
        EditCommand::AddTrack { kind, name, index } => {
            let idx = match index {
                Some(i) => i,
                None => kind_filter(tracks, kind).len() as usize,
            };
            let at: int = match index {
                Some(i) => if i < tracks.len() { i as int } else { tracks.len() as int },
                None => tracks.len() as int,
            };
            &&& only_tracks_changed(pre, post)
            &&& post.timeline.tracks@.len() == tracks.len() + 1
            &&& post.timeline.tracks@ == tracks.insert(at, post.timeline.tracks@[at])
            &&& is_new_track(post.timeline.tracks@[at], kind, name, idx)
        },
        EditCommand::RemoveTrack { track_id } => match track_at(pre.timeline, track_id) {
            Some(i) => only_tracks_changed(pre, post) && post.timeline.tracks@ == tracks.remove(i),
            None => post == pre,
        },
        _ => false,
    }
}

/// Flip a track's mute.
fn toggle_track_mute(project: &mut Project, track_id: TrackId) -> (r: Result<(), EngineError>)
    ensures
        track_cmd_outcome(*old(project), EditCommand::ToggleTrackMute { track_id }, *final(project), r),
{
    if let Some(t) = find_track(&project.timeline, track_id) {
        project.timeline.tracks[t].muted = !project.timeline.tracks[t].muted;
    }
    Ok(())
}

/// Flip a track's lock.
fn toggle_track_lock(project: &mut Project, track_id: TrackId) -> (r: Result<(), EngineError>)
    ensures
        track_cmd_outcome(*old(project), EditCommand::ToggleTrackLock { track_id }, *final(project), r),
{
    if let Some(t) = find_track(&project.timeline, track_id) {
        project.timeline.tracks[t].locked = !project.timeline.tracks[t].locked;
    }
    Ok(())
}

/// Flip a track's visibility.
fn toggle_track_visibility(project: &mut Project, track_id: TrackId) -> (r: Result<(), EngineError>)
    ensures
        track_cmd_outcome(*old(project), EditCommand::ToggleTrackVisibility { track_id }, *final(project), r),
{
    if let Some(t) = find_track(&project.timeline, track_id) {
        project.timeline.tracks[t].visible = !project.timeline.tracks[t].visible;
    }
    Ok(())
}

/// Flip whether a track is left out of export.
fn toggle_track_disable(project: &mut Project, track_id: TrackId) -> (r: Result<(), EngineError>)
    ensures
        track_cmd_outcome(*old(project), EditCommand::ToggleTrackDisable { track_id }, *final(project), r),
{
    if let Some(t) = find_track(&project.timeline, track_id) {
        project.timeline.tracks[t].disabled = !project.timeline.tracks[t].disabled;
    }
    Ok(())
}

/// Set or clear a track's colour label.
fn set_track_color(project: &mut Project, track_id: TrackId, color: Option<TrackColor>) -> (r: Result<(), EngineError>)
    ensures
        track_cmd_outcome(*old(project), EditCommand::SetTrackColor { track_id, color }, *final(project), r),
{
    if let Some(t) = find_track(&project.timeline, track_id) {
        project.timeline.tracks[t].color = color;
    }
    Ok(())
}

/// Rename a track.
fn rename_track(project: &mut Project, track_id: TrackId, new_name: String) -> (r: Result<(), EngineError>)
    ensures
        track_cmd_outcome(*old(project), EditCommand::RenameTrack { track_id, new_name }, *final(project), r),
{
    if let Some(t) = find_track(&project.timeline, track_id) {
        project.timeline.tracks[t].name = new_name;
    }
    Ok(())
}

/// Make one track the primary storyline and clear the flag on all others.
fn set_primary_track(project: &mut Project, track_id: TrackId) -> (r: Result<(), EngineError>)
    ensures
        track_cmd_outcome(*old(project), EditCommand::SetPrimaryTrack { track_id }, *final(project), r),
{
    let ghost pre = *project;
    let target = find_track(&project.timeline, track_id);
    let ghost slot = track_at(pre.timeline, track_id);
    let mut i: usize = 0;
    while i < project.timeline.tracks.len()
        invariant
            0 <= i <= project.timeline.tracks@.len(),
            project.timeline.tracks@.len() == pre.timeline.tracks@.len(),
            only_tracks_changed(pre, *project),
            forall|j: int|
                0 <= j < i ==> #[trigger] project.timeline.tracks@[j] == (Track {
                    is_primary: false,
                    ..pre.timeline.tracks@[j]
                }),
            forall|j: int|
                i <= j < pre.timeline.tracks@.len() ==> #[trigger] project.timeline.tracks@[j]
                    == pre.timeline.tracks@[j],
        decreases pre.timeline.tracks@.len() - i,
    {
        project.timeline.tracks[i].is_primary = false;
        i = i + 1;
    }
    if let Some(t) = target {
        project.timeline.tracks[t].is_primary = true;
    }
    assert forall|j: int| 0 <= j < pre.timeline.tracks@.len() implies #[trigger] project.timeline.tracks@[j]
        == (Track { is_primary: slot == Some(j), ..pre.timeline.tracks@[j] }) by {}
    Ok(())
}

/// Move a track to another position.
fn move_track(project: &mut Project, track_id: TrackId, new_index: usize) -> (r: Result<(), EngineError>)
    ensures
        track_cmd_outcome(*old(project), EditCommand::MoveTrack { track_id, new_index }, *final(project), r),
{
    if let Some(idx) = find_track(&project.timeline, track_id) {
        if idx != new_index && new_index < project.timeline.tracks.len() {
            let track = project.timeline.tracks.remove(idx);
            project.timeline.tracks.insert(new_index, track);
        }
    }
    Ok(())
}

/// The track found by id has that id.
proof fn lemma_track_at_has_id(tl: Timeline, id: TrackId, i: int, t: int)
    requires
        0 <= i <= tl.tracks@.len(),
        forall|j: int| 0 <= j < i ==> tl.tracks@[j].id != id,
        track_at(tl, id) == Some(t),
    ensures
        0 <= t < tl.tracks@.len(),
        tl.tracks@[t].id == id,
    decreases tl.tracks@.len() - i,
{
    reveal(track_at);
    let m = tl.track_pos_index@;
    if !(m.contains_key(id.0) && (m[id.0] as int) < tl.tracks@.len() && tl.tracks@[m[id.0] as int].id == id) {
        if i < tl.tracks@.len() {
            if tl.tracks@[i].id == id {
                let k = first_track_pos(tl.tracks@, id)->0;
                assert(0 <= k < tl.tracks@.len() && tl.tracks@[k].id == id && forall|j: int|
                    0 <= j < k ==> tl.tracks@[j].id != id);
            } else {
                lemma_track_at_has_id(tl, id, i + 1, t);
            }
        }
    }
}

/// Moving a track puts it where asked: when the track is found and the new
/// index is inside the tracks, the track sits at that index afterwards and
/// the other tracks keep their order; the number of tracks is unchanged.
pub proof fn lemma_move_track_places_it(
    pre: Project,
    post: Project,
    track_id: TrackId,
    new_index: usize,
    r: Result<(), EngineError>,
)
    requires
        track_cmd_outcome(pre, EditCommand::MoveTrack { track_id, new_index }, post, r),
        track_at(pre.timeline, track_id) is Some,
        new_index < pre.timeline.tracks@.len(),
    ensures
        post.timeline.tracks@.len() == pre.timeline.tracks@.len(),
        post.timeline.tracks@[new_index as int].id == track_id,
        post.timeline.tracks@.remove(new_index as int) == pre.timeline.tracks@.remove(
            track_at(pre.timeline, track_id)->0,
        ),
{
    let tracks = pre.timeline.tracks@;
    let i = track_at(pre.timeline, track_id)->0;
    lemma_track_at_has_id(pre.timeline, track_id, 0, i);
    if i != new_index {
        let post_t = tracks.remove(i).insert(new_index as int, tracks[i]);
        assert(post.timeline.tracks@ == post_t);
        assert(post_t.remove(new_index as int) =~= tracks.remove(i));
    }
}

/// Add a new track at `index` (at the end when the index is past the end
/// or not given); without an index it is numbered after the tracks of its
/// kind.
fn add_track(project: &mut Project, kind: TrackKind, name: String, index: Option<usize>) -> (r: Result<(), EngineError>)
    ensures
        track_cmd_outcome(*old(project), EditCommand::AddTrack { kind, name, index }, *final(project), r),
{
    let ghost pre = *project;
    let idx = match index {
        Some(i) => i,
        None => project.timeline.count_of_kind(kind),
    };
    let len = project.timeline.tracks.len();
    let at = match index {
        Some(i) => if i < len { i } else { len },
        None => len,
    };
    let track = Track::new(kind, name, idx);
    project.timeline.insert_track(at, track);
    assert(project.timeline.tracks@ =~= pre.timeline.tracks@.insert(at as int, project.timeline.tracks@[at as int]));
    Ok(())
}

/// Remove a track with all its clips.
fn remove_track(project: &mut Project, track_id: TrackId) -> (r: Result<(), EngineError>)
    ensures
        track_cmd_outcome(*old(project), EditCommand::RemoveTrack { track_id }, *final(project), r),
{
    proof {
        reveal(track_at);
    }
    project.timeline.remove_track(track_id);
    Ok(())
}

/// Apply a command that changes a track or the list of tracks.
pub fn apply_track_cmd(project: &mut Project, cmd: EditCommand) -> (r: Result<(), EngineError>)
    requires
        is_track_cmd(cmd),
    ensures
        track_cmd_outcome(*old(project), cmd, *final(project), r),
{
    match cmd {
        EditCommand::ToggleTrackMute { track_id } => toggle_track_mute(project, track_id),
        EditCommand::ToggleTrackLock { track_id } => toggle_track_lock(project, track_id),
        EditCommand::ToggleTrackVisibility { track_id } => toggle_track_visibility(project, track_id),
        EditCommand::ToggleTrackDisable { track_id } => toggle_track_disable(project, track_id),
        EditCommand::SetTrackColor { track_id, color } => set_track_color(project, track_id, color),
        EditCommand::RenameTrack { track_id, new_name } => rename_track(project, track_id, new_name),
        EditCommand::SetPrimaryTrack { track_id } => set_primary_track(project, track_id),
        EditCommand::MoveTrack { track_id, new_index } => move_track(project, track_id, new_index),
        EditCommand::AddTrack { kind, name, index } => add_track(project, kind, name, index),
        EditCommand::RemoveTrack { track_id } => remove_track(project, track_id),
        _ => Ok(()),
    }
}

/// Position of the first marker with id `id`.
pub open spec fn marker_pos(s: Seq<Marker>, id: MarkerId) -> Option<int> {
    if exists|i: int| 0 <= i < s.len() && s[i].id == id {
        Some(choose|i: int| 0 <= i < s.len() && s[i].id == id && forall|j: int| 0 <= j < i ==> s[j].id != id)
    } else {
        None
    }
}

/// The markers of `s` whose id is not `id`, in order.
pub open spec fn markers_without(s: Seq<Marker>, id: MarkerId) -> Seq<Marker> {
    s.filter(|m: Marker| m.id != id)
}

/// Only the timeline differs between `pre` and `post`.
pub open spec fn only_timeline_changed(pre: Project, post: Project) -> bool {
    post == (Project { timeline: post.timeline, ..pre })
}

/// Only the timeline's markers differ between `pre` and `post`.
pub open spec fn only_markers_changed(pre: Project, post: Project) -> bool {
    &&& only_timeline_changed(pre, post)
    &&& post.timeline == (Timeline { markers: post.timeline.markers, ..pre.timeline })
}

/// Only the timeline's semantic regions differ between `pre` and `post`.
pub open spec fn only_semantic_changed(pre: Project, post: Project) -> bool {
    &&& only_timeline_changed(pre, post)
    &&& post.timeline == (Timeline { semantic_clips: post.timeline.semantic_clips, ..pre.timeline })
}

/// Only the asset pool differs between `pre` and `post`.
pub open spec fn only_assets_changed(pre: Project, post: Project) -> bool {
    post == (Project { assets: post.assets, ..pre })
}

/// Position of the first marker of `v` with id `id`.
pub fn find_marker(v: &Vec<Marker>, id: MarkerId) -> (r: Option<usize>)
    ensures
        r matches Some(i) ==> marker_pos(v@, id) == Some(i as int) && i < v@.len(),
        r is None ==> marker_pos(v@, id) is None,
{
    let mut i: usize = 0;
    while i < v.len()
        invariant
            0 <= i <= v@.len(),
            forall|j: int| 0 <= j < i ==> v@[j].id != id,
        decreases v@.len() - i,
    {
        if v[i].id == id {
            proof {
                let k = marker_pos(v@, id)->0;
                if k < i {
                    assert(v@[k].id != id);
                }
                if i < k {
                    assert(v@[i as int].id != id);
                }
            }
            return Some(i);
        }
        i = i + 1;
    }
    None
}

/// Drop every marker with id `id`, keeping the others in order.
pub fn retain_markers_without(v: &mut Vec<Marker>, id: MarkerId)
    ensures
        final(v)@ == markers_without(old(v)@, id),
{
    let ghost orig = v@;
    let ghost pred = |m: Marker| m.id != id;
    let mut i: usize = 0;
    let ghost mut j: int = 0;
    proof {
        reveal(Seq::filter);
        assert(orig.take(0).filter(pred) =~= Seq::<Marker>::empty());
        assert(orig.skip(0) =~= orig);
    }
    while i < v.len()
        invariant
            0 <= j <= orig.len(),
            pred == (|m: Marker| m.id != id),
            i == orig.take(j).filter(pred).len(),
            v@ =~= orig.take(j).filter(pred) + orig.skip(j),
        decreases orig.len() - j,
    {
        proof {
            reveal(Seq::filter);
            assert(orig.take(j + 1).drop_last() =~= orig.take(j));
            assert(v@[i as int] == orig[j]);
        }
        if v[i].id == id {
            v.remove(i);
            proof {
                reveal(Seq::filter);
                let s = orig.take(j + 1);
                assert(s.drop_last() =~= orig.take(j));
                assert(s.last() == orig[j]);
                assert(s.filter(pred) == orig.take(j).filter(pred));
                assert(orig.skip(j + 1) =~= orig.skip(j).remove(0));
                j = j + 1;
            }
        } else {
            proof {
                reveal(Seq::filter);
                let s = orig.take(j + 1);
                assert(s.drop_last() =~= orig.take(j));
                assert(s.last() == orig[j]);
                assert(s.filter(pred) == orig.take(j).filter(pred).push(orig[j]));
                j = j + 1;
            }
            i = i + 1;
        }
    }
    proof {
        assert(j == orig.len());
        assert(orig.take(j) =~= orig);
    }
}

/// The commands on markers, semantic regions and assets, and those the
/// model leaves to other layers.
pub open spec fn is_annotation_cmd(cmd: EditCommand) -> bool {
    match cmd {
        EditCommand::AddMarker { .. } | EditCommand::RemoveMarker { .. } | EditCommand::MoveMarker { .. }
        | EditCommand::AddSemanticClip { .. } | EditCommand::AnnotateAsset { .. } | EditCommand::TagAsset {
            ..
        } | EditCommand::RemoveAsset { .. } | EditCommand::NormalizeClipAudio { .. }
        | EditCommand::ImportAssets { .. } => true,
        _ => false,
    }
}

/// What such a command does; none of them fails.
pub open spec fn annotation_cmd_outcome(pre: Project, cmd: EditCommand, post: Project, r: Result<(), EngineError>) -> bool {
    let markers = pre.timeline.markers@;
    &&& r is Ok
    &&& match cmd {
        EditCommand::AddMarker { label, frame } => {
            let m = post.timeline.markers@.last();
            &&& only_markers_changed(pre, post)
            &&& post.timeline.markers@ == markers.push(m)
            &&& m.id.0 != 0 && m.label == label && m.frame == frame && m.color is None && m.notes@.len() == 0
        },
        EditCommand::RemoveMarker { marker_id } => only_markers_changed(pre, post)
            && post.timeline.markers@ == markers_without(markers, marker_id),
        EditCommand::MoveMarker { marker_id, new_frame } => match marker_pos(markers, marker_id) {
            Some(i) => only_markers_changed(pre, post) && post.timeline.markers@ == markers.update(
                i,
                Marker { frame: new_frame, ..markers[i] },
            ),
            None => post == pre,
        },
        EditCommand::AddSemanticClip { semantic_clip } => only_semantic_changed(pre, post)
            && post.timeline.semantic_clips@ == pre.timeline.semantic_clips@.push(semantic_clip),
        EditCommand::AnnotateAsset { asset_id, description, labels } => match asset_pos(pre.assets@, asset_id) {
            Some(i) => only_assets_changed(pre, post) && post.assets@ == pre.assets@.update(
                i,
                pre.assets@[i].annotated(description, labels),
            ),
            None => post == pre,
        },
        EditCommand::TagAsset { asset_id, tags } => match asset_pos(pre.assets@, asset_id) {
            Some(i) => only_assets_changed(pre, post) && post.assets@ == pre.assets@.update(
                i,
                pre.assets@[i].annotated(None, tags),
            ),
            None => post == pre,
        },
        EditCommand::RemoveAsset { asset_id } => if !crate::project::asset_referenced(
            pre.timeline.tracks@,
            asset_id,
        ) && asset_pos(pre.assets@, asset_id) is Some {
            only_assets_changed(pre, post) && post.assets@ == pre.assets@.remove(
                asset_pos(pre.assets@, asset_id)->0,
            )
        } else {
            post == pre
        },
        EditCommand::NormalizeClipAudio { .. } | EditCommand::ImportAssets { .. } => post == pre,
        _ => false,
    }
}

/// Apply a command on markers, semantic regions or assets.
pub fn apply_annotation_cmd(project: &mut Project, cmd: EditCommand) -> (r: Result<(), EngineError>)
    requires
        is_annotation_cmd(cmd),
    ensures
        annotation_cmd_outcome(*old(project), cmd, *final(project), r),
{
    let ghost pre = *project;
    match cmd {
        EditCommand::AddMarker { label, frame } => {
            let marker = Marker::new(label, frame);
            project.timeline.markers.push(marker);
        },
        EditCommand::RemoveMarker { marker_id } => {
            retain_markers_without(&mut project.timeline.markers, marker_id);
        },
        EditCommand::MoveMarker { marker_id, new_frame } => {
            if let Some(i) = find_marker(&project.timeline.markers, marker_id) {
                project.timeline.markers[i].frame = new_frame;
            }
        },
        EditCommand::AddSemanticClip { semantic_clip } => {
            project.timeline.semantic_clips.push(semantic_clip);
        },
        EditCommand::AnnotateAsset { asset_id, description, labels } => {
            if let Some(i) = project.asset_index(asset_id) {
                project.assets[i].annotate(description, labels);
            }
        },
        EditCommand::TagAsset { asset_id, tags } => {
            if let Some(i) = project.asset_index(asset_id) {
                project.assets[i].annotate(None, tags);
            }
        },
        EditCommand::RemoveAsset { asset_id } => {
            let _ = project.remove_asset(asset_id);
        },
        _ => {},
    }
    Ok(())
}


/// Replacing the clips of a track twice is replacing them once.
pub proof fn lemma_clips_replaced_twice(pre: Project, mid: Project, post: Project, t: int, a: Seq<Clip>, b: Seq<Clip>)
    requires
        clips_replaced(pre, mid, t, a),
        clips_replaced(mid, post, t, b),
    ensures
        clips_replaced(pre, post, t, b),
{
    assert(post.timeline.tracks@ =~= pre.timeline.tracks@.update(t, post.timeline.tracks@[t]));
}

/// Take the clips of the track at `t` out of the project, leaving it empty.
pub fn take_clips(project: &mut Project, t: usize) -> (clips: Vec<Clip>)
    requires
        t < old(project).timeline.tracks@.len(),
    ensures
        clips@ == old(project).timeline.tracks@[t as int].clips@,
        clips_replaced(*old(project), *final(project), t as int, Seq::empty()),
{
    let ghost pre = *project;
    let mut clips: Vec<Clip> = Vec::new();
    std::mem::swap(&mut clips, &mut project.timeline.tracks[t].clips);
    assert(project.timeline.tracks@ =~= pre.timeline.tracks@.update(t as int, project.timeline.tracks@[t as int]));
    clips
}

/// Put `clips` into the track at `t` in place of its clips.
pub fn put_clips(project: &mut Project, t: usize, clips: Vec<Clip>)
    requires
        t < old(project).timeline.tracks@.len(),
    ensures
        clips_replaced(*old(project), *final(project), t as int, clips@),
{
    let ghost pre = *project;
    let mut clips = clips;
    std::mem::swap(&mut clips, &mut project.timeline.tracks[t].clips);
    assert(project.timeline.tracks@ =~= pre.timeline.tracks@.update(t as int, project.timeline.tracks@[t as int]));
}

} // verus!
