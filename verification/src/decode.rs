//! Errors of the media decoder.

use vstd::prelude::*;
use std::path::PathBuf;

verus! {

#[verifier::external_type_specification]
#[verifier::external_body]
pub struct ExIoError(std::io::Error);

/// Why a decode failed.
#[derive(Debug)]
pub enum DecodeError {
    FileNotFound(PathBuf),
    UnsupportedFormat(String),
    NoVideoStream(PathBuf),
    DecodeFailed { frame: i64, reason: String },
    SeekFailed(String),
    Io(std::io::Error),
    Ffmpeg(String),
    /// The decoder is a stub without a real decode library.
    Stub,
}

} // verus!
