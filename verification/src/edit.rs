//! Applying any edit command, batches included, to a project.

use vstd::prelude::*;
use crate::apply::{
    EngineError, annotation_cmd_outcome, apply_annotation_cmd, apply_clip_edit, apply_track_cmd,
    clip_edit_fits, clip_edit_outcome, is_annotation_cmd, is_clip_edit, is_track_cmd, track_cmd_outcome,
};
use crate::commands::EditCommand;
use crate::multicam_edit::{apply_multicam_cmd, is_multicam_cmd, multicam_fits, multicam_outcome};
use crate::plugin::PluginManifest;
use crate::plugin_edit::{apply_plugin_cmd_of, is_plugin_cmd, plugin_outcome};
use crate::project::Project;
use crate::copy::DeepCopy;
use crate::restructure::{apply_structure_cmd, is_structure_cmd, structure_fits, structure_outcome};

verus! {

broadcast use vstd::std_specs::vec::axiom_vec_decreases_to_view;

/// What a single (non-batch) command does to `pre`, by command family.
#[verifier::opaque]
pub open spec fn step_outcome(
    pre: Project,
    cmd: EditCommand,
    discovered: Seq<PluginManifest>,
    post: Project,
    r: Result<(), EngineError>,
) -> bool {
    if is_clip_edit(cmd) {
        clip_edit_outcome(pre, cmd, post, r)
    } else if is_track_cmd(cmd) {
        track_cmd_outcome(pre, cmd, post, r)
    } else if is_annotation_cmd(cmd) {
        annotation_cmd_outcome(pre, cmd, post, r)
    } else if is_structure_cmd(cmd) {
        structure_outcome(pre, cmd, post, r)
    } else if is_multicam_cmd(cmd) {
        multicam_outcome(pre, cmd, post, r)
    } else if is_plugin_cmd(cmd) {
        plugin_outcome(pre, cmd, discovered, post, r)
    } else {
        false
    }
}

/// A single (non-batch) command can run on `pre` without overflowing or
/// panicking.
#[verifier::opaque]
pub open spec fn step_fits(pre: Project, cmd: EditCommand) -> bool {
    &&& clip_edit_fits(pre, cmd)
    &&& structure_fits(pre, cmd)
    &&& multicam_fits(pre, cmd)
}

/// What applying `cmd` to `pre` does: a batch applies its commands in
/// order (see [`batch_outcome`]).
pub open spec fn outcome(
    pre: Project,
    cmd: EditCommand,
    discovered: Seq<PluginManifest>,
    post: Project,
    r: Result<(), EngineError>,
) -> bool
    decreases cmd,
{
    match cmd {
        EditCommand::Batch { commands, .. } => batch_outcome(pre, commands@, discovered, post, r),
        _ => step_outcome(pre, cmd, discovered, post, r),
    }
}

/// What applying `cmds` in order to `pre` does: each command runs on the
/// project the ones before it left; the first failure stops the run and
/// passes on its error, and the project is left as it was before the batch
/// (a copy holding the same content: the batch is all or nothing).
pub open spec fn batch_outcome(
    pre: Project,
    cmds: Seq<EditCommand>,
    discovered: Seq<PluginManifest>,
    post: Project,
    r: Result<(), EngineError>,
) -> bool
    decreases cmds,
{
    exists|states: Seq<Project>, n: int|
        #![trigger states[n]]
        0 <= n <= cmds.len() && states[0] == pre && (forall|j: int|
            0 <= j < n ==> outcome(#[trigger] states[j], cmds[j], discovered, states[j + 1], Ok(())))
            && if n == cmds.len() {
            states.len() == n + 1 && post == states[n] && r is Ok
        } else {
            states.len() == n + 2 && r is Err && outcome(states[n], cmds[n], discovered, states[n + 1], r)
                && Project::same(pre, post)
        }
}

/// `cmd` can run on `pre` without overflowing or panicking (see
/// [`batch_applicable`] for a batch).
pub open spec fn applicable(pre: Project, cmd: EditCommand, discovered: Seq<PluginManifest>) -> bool
    decreases cmd,
{
    match cmd {
        EditCommand::Batch { commands, .. } => batch_applicable(pre, commands@, discovered),
        _ => step_fits(pre, cmd),
    }
}

/// Each command of `cmds` can run on the project the commands before it
/// left (after they all succeeded).
pub open spec fn batch_applicable(pre: Project, cmds: Seq<EditCommand>, discovered: Seq<PluginManifest>) -> bool
    decreases cmds,
{
    forall|states: Seq<Project>, n: int|
        #![trigger states[n]]
        0 <= n < cmds.len() && states.len() == n + 1 && states[0] == pre && (forall|j: int|
            0 <= j < n ==> outcome(#[trigger] states[j], cmds[j], discovered, states[j + 1], Ok(())))
            ==> applicable(states[n], cmds[n], discovered)
}

/// Which family a command belongs to (0 clip edit, 1 track, 2 annotation,
/// 3 structure, 4 multicam, 5 plugin, 6 batch).
pub open spec fn family(cmd: EditCommand) -> u8 {
    if is_clip_edit(cmd) {
        0
    } else if is_track_cmd(cmd) {
        1
    } else if is_annotation_cmd(cmd) {
        2
    } else if is_structure_cmd(cmd) {
        3
    } else if is_multicam_cmd(cmd) {
        4
    } else if is_plugin_cmd(cmd) {
        5
    } else {
        6
    }
}

/// The family of a command, computed.
pub fn family_of(cmd: &EditCommand) -> (f: u8)
    ensures
        f == family(*cmd),
        f == 6 <==> cmd is Batch,
{
    match cmd {
        EditCommand::SetClipSpeed { .. } | EditCommand::SetClipTransform { .. } | EditCommand::TrimClip {
            ..
        } | EditCommand::SlipClip { .. } | EditCommand::AddFilter { .. } | EditCommand::RemoveFilter {
            ..
        } | EditCommand::SetFilterParam { .. } | EditCommand::AddKeyframe { .. }
        | EditCommand::RemoveKeyframe { .. } | EditCommand::MoveKeyframe { .. }
        | EditCommand::ToggleClipMute { .. } | EditCommand::SetClipGain { .. } | EditCommand::SetClipFade {
            ..
        } | EditCommand::SetClipBlendMode { .. } | EditCommand::SetClipLabel { .. }
        | EditCommand::SetClipTransition { .. } | EditCommand::SetClipReverse { .. }
        | EditCommand::SetClipFreezeFrame { .. } | EditCommand::SetClipFrameBlending { .. }
        | EditCommand::SetClipSpatialConform { .. } | EditCommand::RemovePlugin { .. }
        | EditCommand::SetPluginParam { .. } => 0,
        EditCommand::ToggleTrackMute { .. } | EditCommand::ToggleTrackLock { .. }
        | EditCommand::ToggleTrackVisibility { .. } | EditCommand::ToggleTrackDisable { .. }
        | EditCommand::SetTrackColor { .. } | EditCommand::RenameTrack { .. }
        | EditCommand::SetPrimaryTrack { .. } | EditCommand::MoveTrack { .. } | EditCommand::AddTrack {
            ..
        } | EditCommand::RemoveTrack { .. } => 1,
        EditCommand::AddMarker { .. } | EditCommand::RemoveMarker { .. } | EditCommand::MoveMarker { .. }
        | EditCommand::AddSemanticClip { .. } | EditCommand::AnnotateAsset { .. } | EditCommand::TagAsset {
            ..
        } | EditCommand::RemoveAsset { .. } | EditCommand::NormalizeClipAudio { .. }
        | EditCommand::ImportAssets { .. } => 2,
        EditCommand::InsertClip { .. } | EditCommand::RemoveClip { .. } | EditCommand::RippleDelete { .. }
        | EditCommand::MoveClip { .. } | EditCommand::SplitClip { .. } => 3,
        EditCommand::CreateMulticam { .. } | EditCommand::SwitchMulticamAngle { .. }
        | EditCommand::AddMulticamAngle { .. } | EditCommand::RemoveMulticamAngle { .. }
        | EditCommand::SetMulticamAudioPolicy { .. } | EditCommand::CollapseMulticam { .. }
        | EditCommand::SetMulticamSeparateAudio { .. } => 4,
        EditCommand::LoadPlugin { .. } | EditCommand::UnloadPlugin { .. } | EditCommand::ApplyPlugin { .. }
        | EditCommand::RefreshPluginCache => 5,
        EditCommand::Batch { .. } => 6,
    }
}

/// Apply a single (non-batch) command.
fn apply_single(project: &mut Project, cmd: EditCommand, discovered: &Vec<PluginManifest>, f: u8) -> (r: Result<
    (),
    EngineError,
>)
    requires
        f == family(cmd),
        f != 6,
        step_fits(*old(project), cmd),
    ensures
        step_outcome(*old(project), cmd, discovered@, *final(project), r),
{
    proof {
        reveal(step_outcome);
        reveal(step_fits);
    }
    if f == 0 {
        apply_clip_edit(project, cmd)
    } else if f == 1 {
        apply_track_cmd(project, cmd)
    } else if f == 2 {
        apply_annotation_cmd(project, cmd)
    } else if f == 3 {
        apply_structure_cmd(project, cmd)
    } else if f == 4 {
        apply_multicam_cmd(project, cmd)
    } else {
        apply_plugin_cmd_of(project, cmd, discovered)
    }
}

/// Apply one command to the project, without recording history.
/// `discovered` is what a rescan of the plugin directory found; it is used
/// by `RefreshPluginCache`.
pub fn apply_to_model(project: &mut Project, cmd: EditCommand, discovered: &Vec<PluginManifest>) -> (r: Result<
    (),
    EngineError,
>)
    requires
        applicable(*old(project), cmd, discovered@),
    ensures
        outcome(*old(project), cmd, discovered@, *final(project), r),
    decreases cmd,
{
    let f = family_of(&cmd);
    if f == 6 {
        let commands = match cmd {
            EditCommand::Batch { commands, .. } => commands,
            _ => Vec::new(),
        };
        proof {
            assert(decreases_to!(cmd => commands));
        }
        apply_commands(project, commands, discovered)
    } else {
        apply_single(project, cmd, discovered, f)
    }
}

/// Apply `commands` in order, stopping at the first error.
pub fn apply_commands(project: &mut Project, commands: Vec<EditCommand>, discovered: &Vec<PluginManifest>) -> (r:
    Result<(), EngineError>)
    requires
        batch_applicable(*old(project), commands@, discovered@),
    ensures
        batch_outcome(*old(project), commands@, discovered@, *final(project), r),
    decreases commands@,
{
    let ghost pre = *project;
    let ghost cmds = commands@;
    let saved = project.deep_copy();
    let mut rest = commands;
    let ghost mut states: Seq<Project> = seq![pre];
    let ghost mut k: int = 0;
    assert(cmds.skip(0) =~= cmds);
    while rest.len() > 0
        invariant
            pre == *old(project),
            Project::same(pre, saved),
            cmds == commands@,
            0 <= k <= cmds.len(),
            rest@ == cmds.skip(k),
            states.len() == k + 1,
            states[0] == pre,
            states[k] == *project,
            forall|j: int| 0 <= j < k ==> outcome(#[trigger] states[j], cmds[j], discovered@, states[j + 1], Ok(())),
            batch_applicable(pre, cmds, discovered@),
        decreases rest@.len(),
    {
        let sub = rest.remove(0);
        proof {
            assert(sub == cmds[k]);
            assert(rest@ =~= cmds.skip(k + 1));
            assert(states[k] == states[k]);
            assert(applicable(states[k], cmds[k], discovered@));
            assert(decreases_to!(cmds => cmds[k]));
        }
        let ghost before = *project;
        let r = apply_to_model(project, sub, discovered);
        match r {
            Err(e) => {
                proof {
                    assert(states[k] == before);
                    assert(r == Err::<(), EngineError>(r->Err_0));
                    assert(r == Err::<(), EngineError>(e));
                    assert(outcome(states[k], cmds[k], discovered@, *project, Err(e)));
                    assert(k < cmds.len());
                }
                let ghost failed = *project;
                *project = saved;
                proof {
                    let s2 = states.push(failed);
                    assert(s2[k] == states[k] && s2[0] == pre);
                    assert forall|j: int| 0 <= j < k implies outcome(#[trigger] s2[j], cmds[j], discovered@, s2[j + 1], Ok(())) by {
                        assert(s2[j] == states[j] && s2[j + 1] == states[j + 1]);
                    }
                    assert(outcome(s2[k], cmds[k], discovered@, s2[k + 1], r));
                }
                return Err(e);
            },
            Ok(()) => {},
        }
        proof {
            let s2 = states.push(*project);
            assert forall|j: int| 0 <= j < k + 1 implies outcome(#[trigger] s2[j], cmds[j], discovered@, s2[j + 1], Ok(())) by {
                if j < k {
                    assert(s2[j] == states[j] && s2[j + 1] == states[j + 1]);
                } else {
                    assert(s2[j] == before && s2[j + 1] == *project);
                    assert(cmds[j] == sub);
                    assert(r is Ok);
                    assert(r == Ok::<(), EngineError>(r->Ok_0));
                    assert(outcome(s2[j], cmds[j], discovered@, s2[j + 1], Ok(())));
                }
            }
            states = s2;
            k = k + 1;
        }
    }
    proof {
        assert(k == cmds.len());
        assert(states[k] == states[k]);
    }
    Ok(())
}

} // verus!
