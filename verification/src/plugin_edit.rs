//! Commands on the plugin registry and on plugin effects.

use vstd::prelude::*;
use crate::apply::{EngineError, clip_edit, find_clip_slot, same_clip_but_filters};
use crate::clip::Clip;
use crate::commands::EditCommand;
use crate::effect::{EffectInstance, EffectKind, Params};
use crate::ids::{ClipId, PluginId};
use crate::plugin::{PluginManifest, PluginParamDef, PluginParamKind, PluginSource, defaults_built};
use crate::project::{Project, plugin_pos, without_plugin};

verus! {

/// Only the plugin registry differs between `pre` and `post`.
pub open spec fn only_plugins_changed(pre: Project, post: Project) -> bool {
    post == (Project { plugins: post.plugins, ..pre })
}

/// Two parameter kinds agree: equal, with equal choice lists for a choice.
pub open spec fn same_kind(a: PluginParamKind, b: PluginParamKind) -> bool {
    match a {
        PluginParamKind::Choice { choices, default } => b matches PluginParamKind::Choice {
            choices: c2,
            default: d2,
        } && c2@ == choices@ && d2 == default,
        _ => b == a,
    }
}

/// Two parameter definitions agree field by field.
pub open spec fn same_def(a: PluginParamDef, b: PluginParamDef) -> bool {
    b.id == a.id && b.name == a.name && same_kind(a.kind, b.kind)
}

/// `b` is a copy of manifest `a`: every field equal, the parameter list
/// element by element.
pub open spec fn same_manifest(a: PluginManifest, b: PluginManifest) -> bool {
    &&& b == (PluginManifest { params: b.params, ..a })
    &&& b.params@.len() == a.params@.len()
    &&& forall|i: int| 0 <= i < a.params@.len() ==> #[trigger] same_def(a.params@[i], b.params@[i])
}

/// A copy of a parameter kind.
pub fn copy_kind(k: &PluginParamKind) -> (r: PluginParamKind)
    ensures
        same_kind(*k, r),
{
    match k {
        PluginParamKind::Float { min, max, default } => PluginParamKind::Float { min: *min, max: *max, default: *default },
        PluginParamKind::Int { min, max, default } => PluginParamKind::Int { min: *min, max: *max, default: *default },
        PluginParamKind::Bool { default } => PluginParamKind::Bool { default: *default },
        PluginParamKind::Color { default } => PluginParamKind::Color { default: *default },
        PluginParamKind::Choice { choices, default } => {
            let mut c: Vec<String> = Vec::new();
            let mut i: usize = 0;
            while i < choices.len()
                invariant
                    0 <= i <= choices@.len(),
                    c@ == choices@.take(i as int),
                decreases choices@.len() - i,
            {
                c.push(choices[i].clone());
                assert(c@ =~= choices@.take(i + 1));
                i = i + 1;
            }
            assert(choices@.take(choices@.len() as int) =~= choices@);
            PluginParamKind::Choice { choices: c, default: *default }
        },
        PluginParamKind::FilePath => PluginParamKind::FilePath,
        PluginParamKind::Point { default } => PluginParamKind::Point { default: *default },
    }
}

/// A copy of a plugin manifest.
pub fn copy_manifest(m: &PluginManifest) -> (r: PluginManifest)
    ensures
        same_manifest(*m, r),
{
    let mut params: Vec<PluginParamDef> = Vec::new();
    let mut i: usize = 0;
    while i < m.params.len()
        invariant
            0 <= i <= m.params@.len(),
            params@.len() == i,
            forall|j: int| 0 <= j < i ==> #[trigger] same_def(m.params@[j], params@[j]),
        decreases m.params@.len() - i,
    {
        let d = &m.params[i];
        let nd = PluginParamDef { id: d.id.clone(), name: d.name.clone(), kind: copy_kind(&d.kind) };
        params.push(nd);
        i = i + 1;
    }
    let source = match &m.source {
        PluginSource::WasmFile(p) => PluginSource::WasmFile(p.clone()),
        PluginSource::OfxBundle(p) => PluginSource::OfxBundle(p.clone()),
    };
    PluginManifest {
        id: m.id,
        name: m.name.clone(),
        version: m.version.clone(),
        author: m.author.clone(),
        description: m.description.clone(),
        category: m.category,
        source,
        params,
        min_rook_version: m.min_rook_version.clone(),
        crash_count: m.crash_count,
        disabled: m.disabled,
    }
}

/// The registry `ps` after registering each manifest of `ms` in order (each
/// replacing any manifest with its id).
pub open spec fn registered_all(ps: Seq<PluginManifest>, ms: Seq<PluginManifest>) -> Seq<PluginManifest>
    decreases ms.len(),
{
    if ms.len() == 0 {
        ps
    } else {
        without_plugin(registered_all(ps, ms.drop_last()), ms.last().id).push(ms.last())
    }
}

/// `e` is a new enabled effect of plugin `pid` whose parameters are the
/// defaults of manifest `m`.
pub open spec fn is_plugin_effect(e: EffectInstance, pid: PluginId, m: PluginManifest) -> bool {
    &&& e.id.0 != 0 && e.kind == EffectKind::Plugin(pid) && e.enabled
    &&& e.params matches Params::Object(entries) && defaults_built(m.params@, entries@)
}

/// The commands on the plugin registry and on plugin effects.
pub open spec fn is_plugin_cmd(cmd: EditCommand) -> bool {
    match cmd {
        EditCommand::LoadPlugin { .. } | EditCommand::UnloadPlugin { .. } | EditCommand::ApplyPlugin { .. }
        | EditCommand::RefreshPluginCache => true,
        _ => false,
    }
}

/// What a plugin command does; `discovered` is what a rescan of the plugin
/// directory found.
pub open spec fn plugin_outcome(
    pre: Project,
    cmd: EditCommand,
    discovered: Seq<PluginManifest>,
    post: Project,
    r: Result<(), EngineError>,
) -> bool {
    match cmd {
        EditCommand::LoadPlugin { manifest } => r is Ok && only_plugins_changed(pre, post) && post.plugins@
            == without_plugin(pre.plugins@, manifest.id).push(manifest),
        EditCommand::UnloadPlugin { plugin_id } => r is Ok && only_plugins_changed(pre, post) && post.plugins@
            == without_plugin(pre.plugins@, plugin_id),
        EditCommand::ApplyPlugin { clip_id, plugin_id } => match plugin_pos(pre.plugins@, plugin_id) {
            Some(m) => clip_edit(
                pre,
                post,
                r,
                clip_id,
                |a: Clip, b: Clip|
                    same_clip_but_filters(a, b) && b.filters@.len() == a.filters@.len() + 1
                        && b.filters@.drop_last() == a.filters@ && is_plugin_effect(
                        b.filters@.last(),
                        plugin_id,
                        pre.plugins@[m],
                    ),
            ),
            None => r is Ok && post == pre,
        },
        EditCommand::RefreshPluginCache => r is Ok && only_plugins_changed(pre, post) && exists|
            copies: Seq<PluginManifest>,
        |
            #[trigger] registered_all(pre.plugins@, copies) == post.plugins@ && copies.len() == discovered.len()
                && forall|i: int| 0 <= i < discovered.len() ==> #[trigger] same_manifest(discovered[i], copies[i]),
        _ => false,
    }
}

/// Register every discovered manifest.
fn refresh_cmd(project: &mut Project, discovered: &Vec<PluginManifest>) -> (r: Result<(), EngineError>)
    ensures
        plugin_outcome(*old(project), EditCommand::RefreshPluginCache, discovered@, *final(project), r),
{
    let ghost pre = *project;
    let ghost mut copies: Seq<PluginManifest> = Seq::empty();
    let mut i: usize = 0;
    while i < discovered.len()
        invariant
            0 <= i <= discovered@.len(),
            copies.len() == i,
            forall|j: int| 0 <= j < i ==> #[trigger] same_manifest(discovered@[j], copies[j]),
            project.plugins@ == registered_all(pre.plugins@, copies),
            only_plugins_changed(pre, *project),
        decreases discovered@.len() - i,
    {
        let m = copy_manifest(&discovered[i]);
        let ghost mc = m;
        project.add_plugin(m);
        proof {
            let c2 = copies.push(mc);
            assert(c2.drop_last() =~= copies);
            copies = c2;
        }
        i = i + 1;
    }
    Ok(())
}

/// Add a plugin effect seeded with the manifest's default parameters.
fn apply_plugin_cmd(project: &mut Project, clip_id: ClipId, plugin_id: PluginId) -> (r: Result<(), EngineError>)
    ensures
        plugin_outcome(*old(project), EditCommand::ApplyPlugin { clip_id, plugin_id }, Seq::empty(), *final(project), r),
{
    let params = match project.plugin(plugin_id) {
        Some(m) => m.default_params(),
        None => {
            return Ok(());
        },
    };
    match find_clip_slot(&project.timeline, clip_id) {
        None => Err(EngineError::UnknownClip(clip_id)),
        Some((t, k)) => {
            let mut effect = EffectInstance::new(EffectKind::Plugin(plugin_id));
            effect.params = params;
            let c = &mut project.timeline.tracks[t].clips[k];
            let ghost before = c.filters@;
            c.filters.push(effect);
            assert(c.filters@.drop_last() =~= before);
            Ok(())
        },
    }
}

/// Apply a command on the plugin registry or on plugin effects.
pub fn apply_plugin_cmd_of(project: &mut Project, cmd: EditCommand, discovered: &Vec<PluginManifest>) -> (r: Result<(), EngineError>)
    requires
        is_plugin_cmd(cmd),
    ensures
        plugin_outcome(*old(project), cmd, discovered@, *final(project), r),
{
    match cmd {
        EditCommand::LoadPlugin { manifest } => {
            project.add_plugin(manifest);
            Ok(())
        },
        EditCommand::UnloadPlugin { plugin_id } => {
            project.remove_plugin(plugin_id);
            Ok(())
        },
        EditCommand::ApplyPlugin { clip_id, plugin_id } => apply_plugin_cmd(project, clip_id, plugin_id),
        EditCommand::RefreshPluginCache => refresh_cmd(project, discovered),
        _ => Ok(()),
    }
}

} // verus!
