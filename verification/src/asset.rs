//! Assets — media files in the project pool.

use vstd::prelude::*;
use crate::ids::AssetId;
use crate::num::{F32Bits, F64Bits};

verus! {

/// Metadata shared by all asset types.
#[derive(Debug, Clone)]
pub struct AssetMetadata {
    /// Duration in frames.
    pub duration_frames: Option<i64>,
    pub file_size_bytes: Option<u64>,
    /// SHA-256 of the file.
    pub sha256: Option<String>,
    pub video: Option<VideoMetadata>,
    pub audio: Option<AudioMetadata>,
    pub image: Option<ImageMetadata>,
    /// AI labels.
    pub ai_labels: Vec<String>,
    /// AI description.
    pub ai_description: Option<String>,
}

impl Default for AssetMetadata {
    fn default() -> (m: Self)
        ensures
            m.duration_frames is None && m.file_size_bytes is None && m.sha256 is None,
            m.video is None && m.audio is None && m.image is None,
            m.ai_labels@.len() == 0 && m.ai_description is None,
    {
        AssetMetadata {
            duration_frames: None,
            file_size_bytes: None,
            sha256: None,
            video: None,
            audio: None,
            image: None,
            ai_labels: Vec::new(),
            ai_description: None,
        }
    }
}

#[derive(Debug, Clone)]
pub struct VideoMetadata {
    pub width: u32,
    pub height: u32,
    pub codec: String,
    pub fps: F64Bits,
    pub bitrate_bps: u64,
    pub has_audio: bool,
}

#[derive(Debug, Clone)]
pub struct AudioMetadata {
    pub codec: String,
    pub sample_rate: u32,
    pub channels: u8,
    pub bitrate_bps: u64,
}

#[derive(Debug, Clone)]
pub struct ImageMetadata {
    pub width: u32,
    pub height: u32,
    pub format: String,
}

#[derive(Debug, Clone)]
pub struct VideoAsset {
    pub id: AssetId,
    pub path: String,
    pub metadata: AssetMetadata,
    pub proxy_path: Option<String>,
    pub proxy_status: Option<ProxyStatus>,
    /// Fingerprint for cache invalidation.
    pub fingerprint: Option<FileFingerprint>,
}

#[derive(Debug, Clone)]
pub struct AudioAsset {
    pub id: AssetId,
    pub path: String,
    pub metadata: AssetMetadata,
}

#[derive(Debug, Clone)]
pub struct ImageAsset {
    pub id: AssetId,
    pub path: String,
    pub metadata: AssetMetadata,
    /// Frames this image lasts on the timeline.
    pub default_duration_frames: i64,
}

/// Timeline duration of a still image when none is given: 5 s at 24 fps.
pub fn default_image_duration() -> (r: i64)
    ensures
        r == 120,
{
    120
}

#[derive(Debug, Clone)]
pub struct SubtitleAsset {
    pub id: AssetId,
    pub path: String,
    pub metadata: AssetMetadata,
    pub language: String,
}

#[derive(Debug, Clone, Copy, PartialEq, Eq, Structural)]
pub struct FileFingerprint {
    pub size: u64,
    pub mtime_ns: i64,
}

#[derive(Debug, Clone)]
pub enum ProxyStatus {
    Pending,
    Building { progress: F32Bits },
    Ready,
    Failed { reason: String },
}

/// A media asset, one variant per media type.
#[derive(Debug, Clone)]
pub enum Asset {
    Video(VideoAsset),
    Audio(AudioAsset),
    Image(ImageAsset),
    Subtitle(SubtitleAsset),
}

/// The part of `s` after the last `c` (all of `s` when `c` does not occur).
pub open spec fn after_last(s: Seq<char>, c: char) -> Seq<char>
    decreases s.len(),
{
    if s.len() == 0 {
        s
    } else if s.last() == c {
        Seq::empty()
    } else {
        after_last(s.drop_last(), c).push(s.last())
    }
}

/// Position just after the last `c` in `s` (0 when there is none).
pub open spec fn after_last_pos(s: Seq<char>, c: char) -> int
    decreases s.len(),
{
    if s.len() == 0 {
        0
    } else if s.last() == c {
        s.len() as int
    } else {
        after_last_pos(s.drop_last(), c)
    }
}

proof fn lemma_after_last(s: Seq<char>, c: char)
    ensures
        0 <= after_last_pos(s, c) <= s.len(),
        after_last(s, c) == s.subrange(after_last_pos(s, c), s.len() as int),
    decreases s.len(),
{
    if s.len() > 0 {
        lemma_after_last(s.drop_last(), c);
        if s.last() != c {
            assert(s.subrange(after_last_pos(s, c), s.len() as int) =~= s.drop_last().subrange(
                after_last_pos(s.drop_last(), c),
                s.drop_last().len() as int,
            ).push(s.last()));
        } else {
            assert(s.subrange(s.len() as int, s.len() as int) =~= Seq::<char>::empty());
        }
    } else {
        assert(s.subrange(0, 0) =~= s);
    }
}

/// The part of `s` after the last `c`.
/// The stem of a file name: the name before its last `.`, or the whole
/// name when it has no `.` or its only `.` is its first character.
pub open spec fn stem_of_name(n: Seq<char>) -> Seq<char> {
    let p = after_last_pos(n, '.');
    if p <= 1 {
        n
    } else {
        n.subrange(0, p - 1)
    }
}

fn tail_after_last(s: &str, c: char) -> (r: &str)
    ensures
        r@ == after_last(s@, c),
{
    let n = s.unicode_len();
    let mut i: usize = n;
    proof {
        lemma_after_last(s@, c);
    }
    while i > 0 && s.get_char(i - 1) != c
        invariant
            0 <= i <= n,
            n == s@.len(),
            forall|j: int| i <= j < n ==> s@[j] != c,
        decreases i,
    {
        i = i - 1;
    }
    proof {
        lemma_after_last_scan(s@, c, i as int);
    }
    s.substring_char(i, n)
}

proof fn lemma_after_last_scan(s: Seq<char>, c: char, i: int)
    requires
        0 <= i <= s.len(),
        i > 0 ==> s[i - 1] == c,
        forall|j: int| i <= j < s.len() ==> s[j] != c,
    ensures
        after_last(s, c) == s.subrange(i, s.len() as int),
    decreases s.len(),
{
    lemma_after_last(s, c);
    lemma_after_last_pos_is(s, c, i);
}

proof fn lemma_after_last_pos_is(s: Seq<char>, c: char, i: int)
    requires
        0 <= i <= s.len(),
        i > 0 ==> s[i - 1] == c,
        forall|j: int| i <= j < s.len() ==> s[j] != c,
    ensures
        after_last_pos(s, c) == i,
    decreases s.len(),
{
    if s.len() > 0 && s.len() != i {
        assert(s.last() != c);
        lemma_after_last_pos_is(s.drop_last(), c, i);
    }
}

impl Asset {
    pub open spec fn spec_id(self) -> AssetId {
        match self {
            Asset::Video(a) => a.id,
            Asset::Audio(a) => a.id,
            Asset::Image(a) => a.id,
            Asset::Subtitle(a) => a.id,
        }
    }

    pub open spec fn spec_path(self) -> Seq<char> {
        match self {
            Asset::Video(a) => a.path@,
            Asset::Audio(a) => a.path@,
            Asset::Image(a) => a.path@,
            Asset::Subtitle(a) => a.path@,
        }
    }

    /// The same asset with metadata `m`.
    pub open spec fn with_meta(self, m: AssetMetadata) -> Asset {
        match self {
            Asset::Video(a) => Asset::Video(VideoAsset { metadata: m, ..a }),
            Asset::Audio(a) => Asset::Audio(AudioAsset { metadata: m, ..a }),
            Asset::Image(a) => Asset::Image(ImageAsset { metadata: m, ..a }),
            Asset::Subtitle(a) => Asset::Subtitle(SubtitleAsset { metadata: m, ..a }),
        }
    }

    /// The same asset found at `path`.
    pub open spec fn with_path(self, path: String) -> Asset {
        match self {
            Asset::Video(a) => Asset::Video(VideoAsset { path, ..a }),
            Asset::Audio(a) => Asset::Audio(AudioAsset { path, ..a }),
            Asset::Image(a) => Asset::Image(ImageAsset { path, ..a }),
            Asset::Subtitle(a) => Asset::Subtitle(SubtitleAsset { path, ..a }),
        }
    }

    /// The asset after `annotate(description, labels)`.
    pub open spec fn annotated(self, description: Option<String>, labels: Vec<String>) -> Asset {
        self.with_meta(
            AssetMetadata {
                ai_labels: labels,
                ai_description: match description {
                    Some(d) => Some(d),
                    None => self.meta().ai_description,
                },
                ..self.meta()
            },
        )
    }

    pub open spec fn meta(self) -> AssetMetadata {
        match self {
            Asset::Video(a) => a.metadata,
            Asset::Audio(a) => a.metadata,
            Asset::Image(a) => a.metadata,
            Asset::Subtitle(a) => a.metadata,
        }
    }

    pub fn id(&self) -> (r: AssetId)
        ensures
            r == self.spec_id(),
    {
        match self {
            Asset::Video(a) => a.id,
            Asset::Audio(a) => a.id,
            Asset::Image(a) => a.id,
            Asset::Subtitle(a) => a.id,
        }
    }

    pub fn path(&self) -> (r: &str)
        ensures
            r@ == self.spec_path(),
    {
        match self {
            Asset::Video(a) => a.path.as_str(),
            Asset::Audio(a) => a.path.as_str(),
            Asset::Image(a) => a.path.as_str(),
            Asset::Subtitle(a) => a.path.as_str(),
        }
    }

    /// Set the file path (for relinking moved media).
    pub fn set_path(&mut self, new_path: String)
        ensures
            *final(self) == old(self).with_path(new_path),
            final(self).spec_path() == new_path@,
            final(self).spec_id() == old(self).spec_id(),
            final(self).meta() == old(self).meta(),
            (*final(self) is Video) == (*old(self) is Video),
            (*final(self) is Audio) == (*old(self) is Audio),
    {
        match self {
            Asset::Video(a) => a.path = new_path,
            Asset::Audio(a) => a.path = new_path,
            Asset::Image(a) => a.path = new_path,
            Asset::Subtitle(a) => a.path = new_path,
        }
    }

    /// The metadata, for in-place changes.
    pub fn metadata_mut(&mut self) -> (r: &mut AssetMetadata)
        ensures
            *r == old(self).meta(),
            *final(self) == old(self).with_meta(*final(r)),
    {
        match self {
            Asset::Video(a) => &mut a.metadata,
            Asset::Audio(a) => &mut a.metadata,
            Asset::Image(a) => &mut a.metadata,
            Asset::Subtitle(a) => &mut a.metadata,
        }
    }

    /// The file-name stem: the text after the last `/` of the path, without
    /// its final `.extension` (a name whose only dot leads it is kept whole).
    pub fn filename_stem(&self) -> (r: &str)
        ensures
            r@ == stem_of_name(after_last(self.spec_path(), '/')),
    {
        let name = tail_after_last(self.path(), '/');
        let n = name.unicode_len();
        let mut i: usize = n;
        while i > 0 && name.get_char(i - 1) != '.'
            invariant
                0 <= i <= n,
                n == name@.len(),
                forall|j: int| i <= j < n ==> name@[j] != '.',
            decreases i,
        {
            i = i - 1;
        }
        proof {
            lemma_after_last_pos_is(name@, '.', i as int);
        }
        if i <= 1 {
            name
        } else {
            name.substring_char(0, i - 1)
        }
    }

    pub fn metadata(&self) -> (r: &AssetMetadata)
        ensures
            *r == self.meta(),
    {
        match self {
            Asset::Video(a) => &a.metadata,
            Asset::Audio(a) => &a.metadata,
            Asset::Image(a) => &a.metadata,
            Asset::Subtitle(a) => &a.metadata,
        }
    }

    /// Replace the AI annotations: the description when one is given, and
    /// always the labels.
    pub fn annotate(&mut self, description: Option<String>, labels: Vec<String>)
        ensures
            *final(self) == old(self).annotated(description, labels),
            final(self).spec_id() == old(self).spec_id(),
            final(self).spec_path() == old(self).spec_path(),
            final(self).meta().ai_labels == labels,
            final(self).meta().ai_description == (match description {
                Some(d) => Some(d),
                None => old(self).meta().ai_description,
            }),
            final(self).meta().duration_frames == old(self).meta().duration_frames,
            final(self).meta().video == old(self).meta().video,
            final(self).meta().audio == old(self).meta().audio,
    {
        match self {
            Asset::Video(a) => {
                if let Some(d) = description {
                    a.metadata.ai_description = Some(d);
                }
                a.metadata.ai_labels = labels;
            },
            Asset::Audio(a) => {
                if let Some(d) = description {
                    a.metadata.ai_description = Some(d);
                }
                a.metadata.ai_labels = labels;
            },
            Asset::Image(a) => {
                if let Some(d) = description {
                    a.metadata.ai_description = Some(d);
                }
                a.metadata.ai_labels = labels;
            },
            Asset::Subtitle(a) => {
                if let Some(d) = description {
                    a.metadata.ai_description = Some(d);
                }
                a.metadata.ai_labels = labels;
            },
        }
    }
}

} // verus!
