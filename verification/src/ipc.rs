//! The request and response shapes an agent exchanges with the editor, and
//! the transport they travel over.

use vstd::prelude::*;
use std::path::PathBuf;
use crate::ids::{AssetId, ClipId, TrackId};
use crate::asset::Asset;
use crate::commands::EditCommand;
use crate::text::str_eq;
use crate::views::ProjectSnapshot;
use crate::track::TrackKind;

verus! {

/// Which transport is active.
#[derive(Debug, Clone)]
pub enum Transport {
    /// Subprocess stdio.
    Stdio,
    /// Unix domain socket.
    UnixSocket { path: PathBuf },
    /// TCP listener.
    Tcp { addr: String, port: u16 },
}

impl Transport {
    /// The short name of the transport.
    pub fn name(&self) -> (s: &str)
        ensures
            s@ == (match *self {
                Transport::Stdio => "stdio"@,
                Transport::UnixSocket { .. } => "unix"@,
                Transport::Tcp { .. } => "tcp"@,
            }),
    {
        match self {
            Transport::Stdio => "stdio",
            Transport::UnixSocket { .. } => "unix",
            Transport::Tcp { .. } => "tcp",
        }
    }
}

/// Export the project to a file.
#[derive(Debug, Clone)]
pub struct ProjectExportRequest {
    pub output_path: String,
    pub format: String,
    pub preset: Option<String>,
}

#[derive(Debug, Clone)]
pub struct ProjectExportResponse {
    pub job_id: String,
}

/// Import media files into the pool.
#[derive(Debug, Clone)]
pub struct GalleryImportRequest {
    pub paths: Vec<String>,
}

/// Attach AI annotations to an asset.
#[derive(Debug, Clone)]
pub struct GalleryAnnotateRequest {
    pub asset_id: AssetId,
    pub description: Option<String>,
    pub labels: Vec<String>,
}

/// Ask for the timeline, optionally with subtitles and semantic regions.
#[derive(Debug, Clone, Copy)]
pub struct TimelineGetRequest {
    pub include_subtitles: bool,
    pub include_semantic: bool,
}

/// The value of a request flag that is not given.
pub fn default_true() -> (b: bool)
    ensures
        b,
{
    true
}

/// Place a range of an asset on a track.
#[derive(Debug, Clone, Copy)]
pub struct TimelineInsertClipRequest {
    pub asset_id: AssetId,
    pub track_id: TrackId,
    pub position: i64,
    pub source_in: i64,
    pub source_out: Option<i64>,
}

#[derive(Debug, Clone, Copy)]
pub struct TimelineInsertClipResponse {
    pub clip_id: ClipId,
}

#[derive(Debug, Clone, Copy)]
pub struct TimelineRemoveClipRequest {
    pub clip_id: ClipId,
}

#[derive(Debug, Clone, Copy)]
pub struct TimelineSplitClipRequest {
    pub clip_id: ClipId,
    pub at_frame: i64,
}

#[derive(Debug, Clone, Copy)]
pub struct TimelineSplitClipResponse {
    pub clip_a: ClipId,
    pub clip_b: ClipId,
}

#[derive(Debug, Clone)]
pub struct TimelineAddTrackRequest {
    pub kind: TrackKind,
    pub name: String,
}

#[derive(Debug, Clone, Copy)]
pub struct TimelineAddTrackResponse {
    pub track_id: TrackId,
}

#[derive(Debug, Clone, Copy)]
pub struct TimelineSetPlayheadRequest {
    pub frame: i64,
}

/// Render a frame (the playhead's when none is given).
#[derive(Debug, Clone, Copy)]
pub struct PreviewGetFrameRequest {
    pub frame: Option<i64>,
}

#[derive(Debug, Clone)]
pub struct PreviewGetFrameResponse {
    pub frame: i64,
    pub image_base64: String,
    pub width: u32,
    pub height: u32,
}

/// The result of an undo: the label undone, if any, and what is possible now.
#[derive(Debug, Clone)]
pub struct UndoResponse {
    pub undone: Option<String>,
    pub can_undo: bool,
    pub can_redo: bool,
}

/// The outcome of one command of a batch.
#[derive(Debug, Clone)]
pub struct BatchResult {
    pub ok: bool,
    pub error: Option<String>,
}

#[derive(Debug, Clone)]
pub struct BatchExecuteResponse {
    pub results: Vec<BatchResult>,
}

/// Search clips by text, optionally only those lasting at least
/// `min_duration_frames`.
#[derive(Debug, Clone)]
pub struct SearchClipsRequest {
    pub query: String,
    pub min_duration_frames: Option<i64>,
}

/// The verdict on a proposed edit plan.
#[derive(Debug, Clone)]
pub struct TimelineEditValidationResponse {
    pub valid: bool,
    pub errors: Vec<String>,
    pub warnings: Vec<String>,
}

/// The track kind an agent names: "audio", "text" and "effect" name their
/// kinds, anything else a video track.
pub open spec fn track_kind_named(name: Seq<char>) -> TrackKind {
    if name == "audio"@ {
        TrackKind::Audio
    } else if name == "text"@ {
        TrackKind::Text
    } else if name == "effect"@ {
        TrackKind::Effect
    } else {
        TrackKind::Video
    }
}

/// The track kind named by `name` (see [`track_kind_named`]).
pub fn track_kind_from_name(name: &str) -> (k: TrackKind)
    ensures
        k == track_kind_named(name@),
{
    if str_eq(name, "audio") {
        TrackKind::Audio
    } else if str_eq(name, "text") {
        TrackKind::Text
    } else if str_eq(name, "effect") {
        TrackKind::Effect
    } else {
        TrackKind::Video
    }
}

/// The project, for `project.get`.
#[derive(Debug, Clone)]
pub struct ProjectGetResponse {
    pub snapshot: ProjectSnapshot,
}

/// The timeline, for `timeline.get`.
#[derive(Debug, Clone)]
pub struct TimelineGetResponse {
    pub snapshot: ProjectSnapshot,
}

/// The assets an import added.
#[derive(Debug, Clone)]
pub struct GalleryImportResponse {
    pub assets: Vec<Asset>,
}

/// Every asset of the media pool.
#[derive(Debug, Clone)]
pub struct GalleryListResponse {
    pub assets: Vec<Asset>,
}

/// Commands to apply as one step.
#[derive(Debug)]
pub struct BatchExecuteRequest {
    pub commands: Vec<EditCommand>,
}

} // verus!
