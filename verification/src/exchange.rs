//! Interchange vocabulary: the sequence model that exports are written from
//! and imports read into, the formats, the settings of an export, and the
//! few outside calls the writers and readers share.

use vstd::prelude::*;
use vstd::string::StringExecFns;
use std::path::PathBuf;
use crate::text::str_eq;

verus! {

#[verifier::external_type_specification]
#[verifier::external_body]
pub struct ExJsonError(serde_json::Error);

#[verifier::external_type_specification]
#[verifier::external_body]
pub struct ExXmlError(quick_xml::Error);

/// Interchange formats.
#[derive(Debug, Clone, Copy, PartialEq, Eq, Structural)]
pub enum ExportFormat {
    FcpXml1_9,
    FcpXml1_10,
    Fcp7Xml,
    Edl,
    AvidEdl,
    Json,
}

/// How media paths are written into an export.
#[derive(Debug, Clone, Copy, PartialEq, Eq, Structural)]
pub enum RelinkStrategy {
    /// Keep absolute paths as they are.
    Absolute,
    /// Paths relative to the export location.
    Relative,
    /// Search for moved files.
    Heuristic,
    /// Copy media next to the export.
    Copy,
}

/// How timecode is written.
#[derive(Debug, Clone, Copy, PartialEq, Eq, Structural)]
pub enum TimecodeFormat {
    /// Drop-frame timecode (29.97 fps).
    DropFrame,
    NonDropFrame,
    /// Frame counts only.
    Frames,
}

#[derive(Debug, Clone, Copy, PartialEq, Eq, Structural)]
pub enum ColorSpace {
    Rec709,
    Rec2020,
    DciP3,
    AdobeRgb,
}

/// The kind of media an exported asset reference points at.
#[derive(Debug, Clone, Copy, PartialEq, Eq, Structural)]
pub enum AssetKind {
    Video,
    Audio,
    Image,
    Sequence,
}

/// A frame rate as a ratio of whole numbers.
#[derive(Debug, Clone, Copy, PartialEq, Eq, Structural)]
pub struct Fps {
    pub num: u32,
    pub den: u32,
}

impl Fps {
    pub fn new(num: u32, den: u32) -> (f: Self)
        ensures
            f.num == num,
            f.den == den,
    {
        Fps { num, den }
    }
}

/// What an item of a sequence shows.
#[derive(Debug, Clone)]
pub enum ItemKind {
    Video { src: String },
    Audio { src: String },
    Image { src: String },
    /// Content made without a media file (titles, solid colours).
    Generated,
}

/// One item on a sequence track, placed in frames.
#[derive(Debug, Clone)]
pub struct SequenceItem {
    pub id: String,
    pub from: i64,
    pub duration_in_frames: i64,
    pub kind: ItemKind,
}

/// A named row of items.
#[derive(Debug, Clone)]
pub struct SequenceTrack {
    pub name: String,
    pub items: Vec<SequenceItem>,
}

/// The flat timeline that interchange formats describe.
#[derive(Debug, Clone)]
pub struct Sequence {
    pub name: String,
    pub width: u32,
    pub height: u32,
    pub fps: Fps,
    pub duration_in_frames: i64,
    pub tracks: Vec<SequenceTrack>,
}

impl Sequence {
    /// An empty sequence.
    pub fn new(name: &str, width: u32, height: u32, fps: Fps, duration_in_frames: i64) -> (s: Self)
        ensures
            s.name@ == name@,
            s.width == width,
            s.height == height,
            s.fps == fps,
            s.duration_in_frames == duration_in_frames,
            s.tracks@.len() == 0,
    {
        Sequence {
            name: String::from_str(name),
            width,
            height,
            fps,
            duration_in_frames,
            tracks: Vec::new(),
        }
    }

    /// Append a track after the others.
    pub fn add_track(&mut self, track: SequenceTrack)
        ensures
            final(self).tracks@ == old(self).tracks@.push(track),
            final(self).name == old(self).name,
            final(self).width == old(self).width,
            final(self).height == old(self).height,
            final(self).fps == old(self).fps,
            final(self).duration_in_frames == old(self).duration_in_frames,
    {
        self.tracks.push(track);
    }
}

/// The settings of one export or import.
#[derive(Debug, Clone)]
pub struct ExportConfig {
    pub format: ExportFormat,
    pub output_path: PathBuf,
    pub project_name: String,
    pub sequence_name: String,
    pub relink_strategy: RelinkStrategy,
    pub timecode_format: TimecodeFormat,
    pub frame_rate: Fps,
    pub audio_sample_rate: u32,
    pub preserve_folder_structure: bool,
    pub include_unused_media: bool,
    pub color_space: ColorSpace,
}

/// A media file an exported sequence refers to.  Paths are held as text.
#[derive(Debug, Clone)]
pub struct AssetInfo {
    pub id: String,
    pub path: String,
    pub relative_path: Option<String>,
    pub kind: AssetKind,
    pub width: Option<u32>,
    pub height: Option<u32>,
    pub duration_frames: Option<i64>,
    pub fps: Option<Fps>,
    pub audio_channels: Option<u32>,
    pub sample_rate: Option<u32>,
    pub timecode: Option<String>,
    pub color_space: Option<ColorSpace>,
    pub file_size: Option<u64>,
    pub hash: Option<String>,
}

/// Why an export or import failed.
#[derive(Debug)]
pub enum ExportError {
    Io(std::io::Error),
    XmlSerialization(quick_xml::Error),
    JsonSerialization(serde_json::Error),
    UnsupportedFormat(String),
    InvalidTimecode(String),
    MissingAsset(String),
    RelinkingFailed(String),
}

/// The stem of the last component of a path, as `Path::file_stem` finds it.
pub uninterp spec fn path_stem(path: Seq<char>) -> Option<Seq<char>>;

/// `Path::file_stem` on a path given as text: the last component without
/// its final extension, `None` where the path has no last component.  The
/// result is named [`path_stem`]; nothing more is claimed of it.
#[verifier::external_body]
pub(crate) fn file_stem(path: &str) -> (r: Option<String>)
    ensures
        match r {
            Some(s) => path_stem(path@) == Some(s@),
            None => path_stem(path@) is None,
        },
{
    match std::path::Path::new(path).file_stem() {
        Some(s) => s.to_str().map(String::from),
        None => None,
    }
}

/// The upper-case form of a text, as `str::to_uppercase` computes it.
pub uninterp spec fn uppercase(s: Seq<char>) -> Seq<char>;

/// `str::to_uppercase` (Unicode rules).  Its result is named [`uppercase`].
#[verifier::external_body]
pub(crate) fn to_upper(s: &str) -> (r: String)
    ensures
        r@ == uppercase(s@),
{
    s.to_uppercase()
}

/// A lower-case hexadecimal digit.
pub open spec fn is_lower_hex(c: char) -> bool {
    ('0' <= c <= '9') || ('a' <= c <= 'f')
}

/// The hyphenated lower-case text of a random (version 4, RFC 4122 variant)
/// UUID: 36 characters, hyphens at 8, 13, 18 and 23, the version digit `4`
/// at 14, one of `8`, `9`, `a`, `b` at 19, and hexadecimal digits elsewhere.
pub open spec fn is_v4_uid(s: Seq<char>) -> bool {
    &&& s.len() == 36
    &&& s[8] == '-' && s[13] == '-' && s[18] == '-' && s[23] == '-'
    &&& s[14] == '4'
    &&& s[19] == '8' || s[19] == '9' || s[19] == 'a' || s[19] == 'b'
    &&& forall|i: int|
        0 <= i < 36 && i != 8 && i != 13 && i != 18 && i != 23 ==> #[trigger] is_lower_hex(s[i])
}

/// `uuid::Uuid::new_v4().to_string()`: a random identifier in its
/// hyphenated text form.  Which one rests on chance; its form does not:
/// `new_v4` sets the version bits to 4 and the variant bits to `10`, and
/// `Display` writes the 32 digits in lower case, hyphenated 8-4-4-4-12.
#[verifier::external_body]
pub(crate) fn random_uid() -> (r: String)
    ensures
        is_v4_uid(r@),
{
    uuid::Uuid::new_v4().to_string()
}

/// The outcome of relinking one media path.
#[derive(Debug, Clone)]
pub enum RelinkResult {
    Unchanged,
    Relinked(String),
    Failed(String),
}

/// The name a format is stored under in settings files.
pub open spec fn format_name(f: ExportFormat) -> Seq<char> {
    match f {
        ExportFormat::FcpXml1_9 => "fcpxml_1_9"@,
        ExportFormat::FcpXml1_10 => "fcpxml_1_10"@,
        ExportFormat::Fcp7Xml => "fcp7xml"@,
        ExportFormat::Edl => "edl"@,
        ExportFormat::AvidEdl => "avid_edl"@,
        ExportFormat::Json => "json"@,
    }
}

impl ExportFormat {
    /// The stored name (see [`format_name`]).
    pub fn name(&self) -> (s: &'static str)
        ensures
            s@ == format_name(*self),
    {
        match self {
            ExportFormat::FcpXml1_9 => "fcpxml_1_9",
            ExportFormat::FcpXml1_10 => "fcpxml_1_10",
            ExportFormat::Fcp7Xml => "fcp7xml",
            ExportFormat::Edl => "edl",
            ExportFormat::AvidEdl => "avid_edl",
            ExportFormat::Json => "json",
        }
    }

    /// The format stored under `name`, if any; names are exact.
    pub fn from_name(name: &str) -> (r: Option<ExportFormat>)
        ensures
            match r {
                Some(f) => format_name(f) == name@,
                None => forall|f: ExportFormat| format_name(f) != name@,
            },
    {
        if str_eq(name, "fcpxml_1_9") {
            Some(ExportFormat::FcpXml1_9)
        } else if str_eq(name, "fcpxml_1_10") {
            Some(ExportFormat::FcpXml1_10)
        } else if str_eq(name, "fcp7xml") {
            Some(ExportFormat::Fcp7Xml)
        } else if str_eq(name, "edl") {
            Some(ExportFormat::Edl)
        } else if str_eq(name, "avid_edl") {
            Some(ExportFormat::AvidEdl)
        } else if str_eq(name, "json") {
            Some(ExportFormat::Json)
        } else {
            None
        }
    }
}

} // verus!
