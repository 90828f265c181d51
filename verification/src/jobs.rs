//! Background job vocabulary: what kinds of work the job runner does on an
//! asset, and how a job kind is named on the command line.

use vstd::prelude::*;
use crate::text::str_eq;

verus! {

/// The job runner stopped before a job could be queued.
#[derive(Debug, Clone, Copy, PartialEq, Eq, Structural)]
pub enum JobError {
    Stopped,
}

/// The kinds of background work on an asset.
#[derive(Debug, Clone, Copy, PartialEq, Eq, Structural)]
pub enum JobKind {
    Waveform,
    Thumbnails,
    Proxy,
    SeekIndex,
}

/// A job to run on an asset.
#[derive(Debug, Clone)]
pub struct JobSpec {
    pub asset_id: String,
    pub kind: JobKind,
    pub priority: i32,
}

/// The job kind a name stands for: "waveform"; "thumbs" or "thumbnail";
/// "proxy"; "seekidx" or "seek_index".
pub open spec fn job_kind_named(name: Seq<char>) -> Option<JobKind> {
    if name == "waveform"@ {
        Some(JobKind::Waveform)
    } else if name == "thumbs"@ || name == "thumbnail"@ {
        Some(JobKind::Thumbnails)
    } else if name == "proxy"@ {
        Some(JobKind::Proxy)
    } else if name == "seekidx"@ || name == "seek_index"@ {
        Some(JobKind::SeekIndex)
    } else {
        None
    }
}

/// Parse a job kind name.
pub fn parse_job_kind(kind: &str) -> (r: Option<JobKind>)
    ensures
        r == job_kind_named(kind@),
{
    if str_eq(kind, "waveform") {
        Some(JobKind::Waveform)
    } else if str_eq(kind, "thumbs") || str_eq(kind, "thumbnail") {
        Some(JobKind::Thumbnails)
    } else if str_eq(kind, "proxy") {
        Some(JobKind::Proxy)
    } else if str_eq(kind, "seekidx") || str_eq(kind, "seek_index") {
        Some(JobKind::SeekIndex)
    } else {
        None
    }
}

} // verus!
