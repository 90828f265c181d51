//! Edit commands — the closed set of structured, undoable mutations.

use vstd::prelude::*;
use crate::asset::Asset;
use crate::clip::{BlendMode, Fade, SemanticClip, SpatialConform, Transition};
use crate::effect::{EffectInstance, ParamValue};
use crate::ids::{AngleId, AssetId, ClipId, EffectId, KeyframeId, MarkerId, PluginId, TrackId};
use crate::keyframe::Keyframe;
use crate::multicam::{MulticamAudioPolicy, MulticamSyncMethod};
use crate::num::F32Bits;
use crate::plugin::PluginManifest;
use crate::time::{Rational, TimeRange};
use crate::track::{TrackColor, TrackKind};
use crate::transform::Transform;

verus! {

/// Every mutation of a project goes through an `EditCommand`: a UI turns
/// gestures into commands, an agent turns prompts into the same commands.
#[derive(Debug)]
pub enum EditCommand {
    /// Place a trimmed range of media onto a track.
    InsertClip { asset_id: AssetId, track_id: TrackId, position: i64, source_in: i64, source_out: i64, link_group_id: Option<u64> },
    /// Remove a clip, leaving a gap.
    RemoveClip { clip_id: ClipId },
    /// Remove a clip and slide later clips left to close the gap.
    RippleDelete { clip_id: ClipId },
    /// Move a clip to a different track or position.
    MoveClip { clip_id: ClipId, new_track_id: TrackId, new_position: i64 },
    /// Change a clip's source in/out points.
    TrimClip { clip_id: ClipId, new_source_range: TimeRange },
    /// Slip the source range without moving the clip on the timeline.
    SlipClip { clip_id: ClipId, delta: i64 },
    /// Split a clip at `at_frame` into two abutting clips.
    SplitClip { clip_id: ClipId, at_frame: i64 },
    /// Set clip speed.
    SetClipSpeed { clip_id: ClipId, speed: Rational },
    /// Set the transform on a clip.
    SetClipTransform { clip_id: ClipId, transform: Transform },
    /// Toggle mute on a clip.
    ToggleClipMute { clip_id: ClipId },
    /// Set clip gain in dB.
    SetClipGain { clip_id: ClipId, gain_db: F32Bits },
    /// Set fade-in / fade-out on a clip.
    SetClipFade { clip_id: ClipId, fade: Option<Fade> },
    /// Set the clip blend mode.
    SetClipBlendMode { clip_id: ClipId, blend_mode: BlendMode },
    /// Set the clip label.
    SetClipLabel { clip_id: ClipId, label: String },
    /// Set a transition on a clip.
    SetClipTransition { clip_id: ClipId, transition: Option<Transition> },
    /// Reverse the clip playback direction.
    SetClipReverse { clip_id: ClipId, reverse: bool },
    /// Freeze the clip on a source frame (relative to `source_in`); `None` removes the freeze.
    SetClipFreezeFrame { clip_id: ClipId, freeze_frame: Option<i64> },
    /// Toggle frame blending for smooth speed changes.
    SetClipFrameBlending { clip_id: ClipId, enabled: bool },
    /// Set spatial conform mode for a clip.
    SetClipSpatialConform { clip_id: ClipId, conform: Option<SpatialConform> },
    /// Normalize audio gain to a target peak (computed where the waveform is).
    NormalizeClipAudio { clip_id: ClipId, target_peak_db: F32Bits },
    /// Add a new track.
    AddTrack { kind: TrackKind, name: String, index: Option<usize> },
    /// Remove a track and all its clips.
    RemoveTrack { track_id: TrackId },
    /// Rename a track.
    RenameTrack { track_id: TrackId, new_name: String },
    /// Move a track to a new index.
    MoveTrack { track_id: TrackId, new_index: usize },
    /// Toggle track mute.
    ToggleTrackMute { track_id: TrackId },
    /// Toggle track lock.
    ToggleTrackLock { track_id: TrackId },
    /// Toggle track visibility.
    ToggleTrackVisibility { track_id: TrackId },
    /// Toggle track disable (exclude from export).
    ToggleTrackDisable { track_id: TrackId },
    /// Set track color label.
    SetTrackColor { track_id: TrackId, color: Option<TrackColor> },
    /// Set the primary storyline track.
    SetPrimaryTrack { track_id: TrackId },
    /// Add a filter to a clip.
    AddFilter { clip_id: ClipId, filter: EffectInstance },
    /// Remove a filter from a clip.
    RemoveFilter { clip_id: ClipId, filter_id: EffectId },
    /// Set a parameter on a filter.
    SetFilterParam { clip_id: ClipId, filter_id: EffectId, param_name: String, value: ParamValue },
    /// Add (or replace) a keyframe on a clip.
    AddKeyframe { clip_id: ClipId, keyframe: Keyframe },
    /// Remove a keyframe.
    RemoveKeyframe { clip_id: ClipId, keyframe_id: KeyframeId },
    /// Move a keyframe to another frame.
    MoveKeyframe { clip_id: ClipId, keyframe_id: KeyframeId, new_frame: i64 },
    /// Add a marker.
    AddMarker { label: String, frame: i64 },
    /// Remove a marker.
    RemoveMarker { marker_id: MarkerId },
    /// Move a marker.
    MoveMarker { marker_id: MarkerId, new_frame: i64 },
    /// Import media files.
    ImportAssets { paths: Vec<String> },
    /// Remove an asset from the pool.
    RemoveAsset { asset_id: AssetId },
    /// Replace an asset's labels.
    TagAsset { asset_id: AssetId, tags: Vec<String> },
    /// Set AI-generated labels / description on an asset.
    AnnotateAsset { asset_id: AssetId, description: Option<String>, labels: Vec<String> },
    /// Add an AI semantic region.
    AddSemanticClip { semantic_clip: SemanticClip },
    /// Apply a list of commands as one undo entry.
    Batch { label: String, commands: Vec<EditCommand> },
    /// Group clips into a multicam clip.
    CreateMulticam { clip_ids: Vec<ClipId>, label: String, sync_method: MulticamSyncMethod, position: i64, track_id: TrackId },
    /// Switch the active angle of a multicam clip.
    SwitchMulticamAngle { clip_id: ClipId, angle_index: usize },
    /// Add an angle to a multicam clip.
    AddMulticamAngle { clip_id: ClipId, asset_id: AssetId, label: String, offset_frames: i64 },
    /// Remove an angle from a multicam clip.
    RemoveMulticamAngle { clip_id: ClipId, angle_id: AngleId },
    /// Set the audio policy of a multicam clip.
    SetMulticamAudioPolicy { clip_id: ClipId, policy: MulticamAudioPolicy },
    /// Collapse a multicam clip to a regular clip (keeps the active angle).
    CollapseMulticam { clip_id: ClipId },
    /// Set or clear the separate audio clip of a multicam clip.
    SetMulticamSeparateAudio { clip_id: ClipId, audio_clip_id: Option<ClipId> },
    /// Register a plugin manifest.
    LoadPlugin { manifest: PluginManifest },
    /// Remove a plugin from the registry.
    UnloadPlugin { plugin_id: PluginId },
    /// Apply a plugin as an effect on a clip.
    ApplyPlugin { clip_id: ClipId, plugin_id: PluginId },
    /// Remove a plugin effect from a clip.
    RemovePlugin { clip_id: ClipId, effect_id: EffectId },
    /// Set a parameter on a plugin effect.
    SetPluginParam { clip_id: ClipId, effect_id: EffectId, param_name: String, value: ParamValue },
    /// Re-scan the plugins directory and register what it holds.
    RefreshPluginCache,
}

/// The undo/redo label of a command.
pub open spec fn label_of(cmd: EditCommand) -> Seq<char> {
    match cmd {
        EditCommand::InsertClip { .. } => "Insert clip"@,
        EditCommand::RemoveClip { .. } => "Remove clip"@,
        EditCommand::RippleDelete { .. } => "Ripple delete"@,
        EditCommand::MoveClip { .. } => "Move clip"@,
        EditCommand::TrimClip { .. } => "Trim clip"@,
        EditCommand::SlipClip { .. } => "Slip clip"@,
        EditCommand::SplitClip { .. } => "Split clip"@,
        EditCommand::SetClipSpeed { .. } => "Set speed"@,
        EditCommand::SetClipTransform { .. } => "Set transform"@,
        EditCommand::ToggleClipMute { .. } => "Toggle mute"@,
        EditCommand::SetClipGain { .. } => "Set gain"@,
        EditCommand::SetClipFade { .. } => "Set fade"@,
        EditCommand::SetClipBlendMode { .. } => "Set blend mode"@,
        EditCommand::SetClipLabel { .. } => "Rename clip"@,
        EditCommand::SetClipTransition { .. } => "Set transition"@,
        EditCommand::SetClipReverse { .. } => "Reverse clip"@,
        EditCommand::SetClipFreezeFrame { .. } => "Freeze frame"@,
        EditCommand::SetClipFrameBlending { .. } => "Frame blending"@,
        EditCommand::SetClipSpatialConform { .. } => "Spatial conform"@,
        EditCommand::NormalizeClipAudio { .. } => "Normalize audio"@,
        EditCommand::AddTrack { .. } => "Add track"@,
        EditCommand::RemoveTrack { .. } => "Remove track"@,
        EditCommand::RenameTrack { .. } => "Rename track"@,
        EditCommand::MoveTrack { .. } => "Move track"@,
        EditCommand::ToggleTrackMute { .. } => "Toggle track mute"@,
        EditCommand::ToggleTrackLock { .. } => "Toggle track lock"@,
        EditCommand::ToggleTrackVisibility { .. } => "Toggle track visibility"@,
        EditCommand::ToggleTrackDisable { .. } => "Toggle track disable"@,
        EditCommand::SetTrackColor { .. } => "Set track color"@,
        EditCommand::SetPrimaryTrack { .. } => "Set primary track"@,
        EditCommand::AddFilter { .. } => "Add filter"@,
        EditCommand::RemoveFilter { .. } => "Remove filter"@,
        EditCommand::SetFilterParam { .. } => "Set filter param"@,
        EditCommand::AddKeyframe { .. } => "Add keyframe"@,
        EditCommand::RemoveKeyframe { .. } => "Remove keyframe"@,
        EditCommand::MoveKeyframe { .. } => "Move keyframe"@,
        EditCommand::AddMarker { .. } => "Add marker"@,
        EditCommand::RemoveMarker { .. } => "Remove marker"@,
        EditCommand::MoveMarker { .. } => "Move marker"@,
        EditCommand::ImportAssets { .. } => "Import assets"@,
        EditCommand::RemoveAsset { .. } => "Remove asset"@,
        EditCommand::TagAsset { .. } => "Tag asset"@,
        EditCommand::AnnotateAsset { .. } => "Annotate asset"@,
        EditCommand::AddSemanticClip { .. } => "Add semantic clip"@,
        EditCommand::Batch { label, .. } => label@,
        EditCommand::CreateMulticam { .. } => "Create multicam"@,
        EditCommand::SwitchMulticamAngle { .. } => "Switch multicam angle"@,
        EditCommand::AddMulticamAngle { .. } => "Add multicam angle"@,
        EditCommand::RemoveMulticamAngle { .. } => "Remove multicam angle"@,
        EditCommand::SetMulticamAudioPolicy { .. } => "Set audio policy"@,
        EditCommand::CollapseMulticam { .. } => "Collapse multicam"@,
        EditCommand::SetMulticamSeparateAudio { .. } => "Set separate audio"@,
        EditCommand::LoadPlugin { .. } => "Load plugin"@,
        EditCommand::UnloadPlugin { .. } => "Unload plugin"@,
        EditCommand::ApplyPlugin { .. } => "Apply plugin"@,
        EditCommand::RemovePlugin { .. } => "Remove plugin"@,
        EditCommand::SetPluginParam { .. } => "Set plugin param"@,
        EditCommand::RefreshPluginCache => "Refresh plugin cache"@,
    }
}

impl EditCommand {
    /// Human-readable label for undo/redo menus.
    pub fn label(&self) -> (s: &str)
        ensures
            s@ == label_of(*self),
    {
        match self {
            EditCommand::InsertClip { .. } => "Insert clip",
            EditCommand::RemoveClip { .. } => "Remove clip",
            EditCommand::RippleDelete { .. } => "Ripple delete",
            EditCommand::MoveClip { .. } => "Move clip",
            EditCommand::TrimClip { .. } => "Trim clip",
            EditCommand::SlipClip { .. } => "Slip clip",
            EditCommand::SplitClip { .. } => "Split clip",
            EditCommand::SetClipSpeed { .. } => "Set speed",
            EditCommand::SetClipTransform { .. } => "Set transform",
            EditCommand::ToggleClipMute { .. } => "Toggle mute",
            EditCommand::SetClipGain { .. } => "Set gain",
            EditCommand::SetClipFade { .. } => "Set fade",
            EditCommand::SetClipBlendMode { .. } => "Set blend mode",
            EditCommand::SetClipLabel { .. } => "Rename clip",
            EditCommand::SetClipTransition { .. } => "Set transition",
            EditCommand::SetClipReverse { .. } => "Reverse clip",
            EditCommand::SetClipFreezeFrame { .. } => "Freeze frame",
            EditCommand::SetClipFrameBlending { .. } => "Frame blending",
            EditCommand::SetClipSpatialConform { .. } => "Spatial conform",
            EditCommand::NormalizeClipAudio { .. } => "Normalize audio",
            EditCommand::AddTrack { .. } => "Add track",
            EditCommand::RemoveTrack { .. } => "Remove track",
            EditCommand::RenameTrack { .. } => "Rename track",
            EditCommand::MoveTrack { .. } => "Move track",
            EditCommand::ToggleTrackMute { .. } => "Toggle track mute",
            EditCommand::ToggleTrackLock { .. } => "Toggle track lock",
            EditCommand::ToggleTrackVisibility { .. } => "Toggle track visibility",
            EditCommand::ToggleTrackDisable { .. } => "Toggle track disable",
            EditCommand::SetTrackColor { .. } => "Set track color",
            EditCommand::SetPrimaryTrack { .. } => "Set primary track",
            EditCommand::AddFilter { .. } => "Add filter",
            EditCommand::RemoveFilter { .. } => "Remove filter",
            EditCommand::SetFilterParam { .. } => "Set filter param",
            EditCommand::AddKeyframe { .. } => "Add keyframe",
            EditCommand::RemoveKeyframe { .. } => "Remove keyframe",
            EditCommand::MoveKeyframe { .. } => "Move keyframe",
            EditCommand::AddMarker { .. } => "Add marker",
            EditCommand::RemoveMarker { .. } => "Remove marker",
            EditCommand::MoveMarker { .. } => "Move marker",
            EditCommand::ImportAssets { .. } => "Import assets",
            EditCommand::RemoveAsset { .. } => "Remove asset",
            EditCommand::TagAsset { .. } => "Tag asset",
            EditCommand::AnnotateAsset { .. } => "Annotate asset",
            EditCommand::AddSemanticClip { .. } => "Add semantic clip",
            EditCommand::Batch { label, .. } => label.as_str(),
            EditCommand::CreateMulticam { .. } => "Create multicam",
            EditCommand::SwitchMulticamAngle { .. } => "Switch multicam angle",
            EditCommand::AddMulticamAngle { .. } => "Add multicam angle",
            EditCommand::RemoveMulticamAngle { .. } => "Remove multicam angle",
            EditCommand::SetMulticamAudioPolicy { .. } => "Set audio policy",
            EditCommand::CollapseMulticam { .. } => "Collapse multicam",
            EditCommand::SetMulticamSeparateAudio { .. } => "Set separate audio",
            EditCommand::LoadPlugin { .. } => "Load plugin",
            EditCommand::UnloadPlugin { .. } => "Unload plugin",
            EditCommand::ApplyPlugin { .. } => "Apply plugin",
            EditCommand::RemovePlugin { .. } => "Remove plugin",
            EditCommand::SetPluginParam { .. } => "Set plugin param",
            EditCommand::RefreshPluginCache => "Refresh plugin cache",
        }
    }
}

} // verus!
