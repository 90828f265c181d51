//! Final Cut Pro XML: the document model a sequence is described by, built
//! from a sequence and read back into one.
//!
//! Times in the document are seconds written as decimal text.  That text is
//! made by a function the caller hands in (`seconds`), applied to a
//! numerator and a denominator: the writers here fix which ratio each time
//! attribute is made from.

use vstd::prelude::*;
use vstd::string::StringExecFns;
use crate::exchange::{
    path_stem, file_stem, is_v4_uid, random_uid, AssetInfo, AssetKind, ColorSpace, ExportConfig, ExportFormat,
    Fps, ItemKind, Sequence, SequenceItem, SequenceTrack,
};
use crate::text::{decimal, decimal_string};
use crate::xml_out::{attr, attrs_view, events_text, XmlEvent, XmlEventView, XmlOut};

verus! {

/// The video format resource every clip refers to.
#[derive(Debug)]
pub struct FcpFormat {
    pub id: String,
    pub name: String,
    pub frame_duration: String,
    pub width: u32,
    pub height: u32,
    pub color_space: String,
}

impl FcpFormat {
    /// A field-for-field copy.
    pub fn duplicate(&self) -> (r: Self)
        ensures
            r == *self,
    {
        FcpFormat {
            id: self.id.clone(),
            name: self.name.clone(),
            frame_duration: self.frame_duration.clone(),
            width: self.width,
            height: self.height,
            color_space: self.color_space.clone(),
        }
    }
}

#[derive(Debug)]
pub struct FcpAudioSubitem {
    pub lane: i32,
    pub offset: String,
    pub duration: String,
    pub ref_id: String,
}

/// A clip of the spine, referring to an asset by id.
#[derive(Debug)]
pub struct FcpClip {
    pub name: String,
    pub uid: String,
    pub duration: String,
    pub start: String,
    pub offset: String,
    pub ref_id: String,
    pub format: Option<String>,
    pub audio_subitems: Vec<FcpAudioSubitem>,
}

#[derive(Debug)]
pub struct FcpSpine {
    pub clips: Vec<FcpClip>,
}

#[derive(Debug)]
pub struct FcpSequence {
    pub name: String,
    pub uid: String,
    pub duration: String,
    pub format: FcpFormat,
    pub spine: FcpSpine,
}

/// A media file resource.
#[derive(Debug)]
pub struct FcpAsset {
    pub id: String,
    pub name: String,
    pub uid: String,
    pub src: String,
    pub start: String,
    pub duration: String,
    pub has_video: bool,
    pub has_audio: bool,
    pub format: Option<String>,
    pub audio_sources: Option<u32>,
    pub audio_channels: Option<u32>,
}

#[derive(Debug)]
pub struct FcpMedia {
    pub id: String,
    pub name: String,
    pub uid: String,
    pub project_ref: String,
}

#[derive(Debug)]
pub struct FcpResources {
    pub assets: Vec<FcpAsset>,
    pub media: Vec<FcpMedia>,
    pub formats: Vec<FcpFormat>,
}

#[derive(Debug)]
pub struct FcpEvent {
    pub name: String,
    pub uid: String,
    pub resources: FcpResources,
}

#[derive(Debug)]
pub struct FcpProject {
    pub name: String,
    pub uid: String,
    pub sequence: FcpSequence,
    pub events: Vec<FcpEvent>,
}

/// A whole document.
#[derive(Debug)]
pub struct FcpXml {
    pub version: String,
    pub project: FcpProject,
}

// ---------------------------------------------------------------------------
// What a document built from a sequence holds
// ---------------------------------------------------------------------------

/// Items that refer to a media file (all but generated ones).
pub open spec fn is_media(k: ItemKind) -> bool {
    !(k is Generated)
}

/// The media items of a row, in order.
pub open spec fn media_of(items: Seq<SequenceItem>) -> Seq<SequenceItem>
    decreases items.len(),
{
    if items.len() == 0 {
        Seq::empty()
    } else if is_media(items.last().kind) {
        media_of(items.drop_last()).push(items.last())
    } else {
        media_of(items.drop_last())
    }
}

/// The media items of all tracks, track by track.
pub open spec fn media_in(tracks: Seq<SequenceTrack>) -> Seq<SequenceItem>
    decreases tracks.len(),
{
    if tracks.len() == 0 {
        Seq::empty()
    } else {
        media_in(tracks.drop_last()) + media_of(tracks.last().items@)
    }
}

/// The media path of an item (empty for generated ones).
pub open spec fn src_of(k: ItemKind) -> Seq<char> {
    match k {
        ItemKind::Video { src } => src@,
        ItemKind::Audio { src } => src@,
        ItemKind::Image { src } => src@,
        ItemKind::Generated => Seq::empty(),
    }
}

/// The display name of a media path: its stem, or "Unknown".
pub open spec fn stem_or_unknown(src: Seq<char>) -> Seq<char> {
    match path_stem(src) {
        Some(s) => s,
        None => "Unknown"@,
    }
}

/// The audio channel count of the first asset whose path is `p`.
pub open spec fn channels_for(assets: Seq<AssetInfo>, p: Seq<char>) -> Option<u32>
    decreases assets.len(),
{
    if assets.len() == 0 {
        None
    } else if assets[0].path@ == p {
        assets[0].audio_channels
    } else {
        channels_for(assets.drop_first(), p)
    }
}

/// `v` frames at `fps`, scaled to the numerator of a time in seconds.
pub open spec fn scaled(v: i64, fps: Fps) -> i64 {
    (v * fps.den) as i64
}

/// `v` frames at `fps` can be scaled without leaving `i64`.
pub open spec fn scale_fits(v: i64, fps: Fps) -> bool {
    i64::MIN <= v * fps.den <= i64::MAX
}

/// Every time of the sequence can be scaled.
pub open spec fn times_fit(s: Sequence) -> bool {
    &&& scale_fits(s.duration_in_frames, s.fps)
    &&& forall|t: int, i: int|
        0 <= t < s.tracks@.len() && 0 <= i < s.tracks@[t].items@.len() ==> {
            &&& scale_fits(#[trigger] s.tracks@[t].items@[i].from, s.fps)
            &&& scale_fits(s.tracks@[t].items@[i].duration_in_frames, s.fps)
        }
}

/// `text` is what `seconds` gives for `v` frames at `fps`.
pub open spec fn seconds_of<F: Fn(i64, u32) -> String>(seconds: F, v: i64, fps: Fps, text: String) -> bool {
    call_ensures(seconds, (scaled(v, fps), fps.num), text)
}

/// The asset resource written for media item `it`.
pub open spec fn asset_for<F: Fn(i64, u32) -> String>(
    a: FcpAsset,
    it: SequenceItem,
    fps: Fps,
    assets: Seq<AssetInfo>,
    seconds: F,
) -> bool {
    let src = src_of(it.kind);
    &&& a.id@ == a.uid@ && is_v4_uid(a.uid@)
    &&& a.name@ == stem_or_unknown(src)
    &&& a.src@ == src
    &&& a.start@ == "0s"@
    &&& seconds_of(seconds, it.duration_in_frames, fps, a.duration)
    &&& a.has_video == !(it.kind is Audio)
    &&& a.has_audio == !(it.kind is Image)
    &&& (if it.kind is Audio {
        a.format is None
    } else {
        a.format matches Some(f) && f@ == "r1"@
    })
    &&& a.audio_sources == channels_for(assets, src)
    &&& a.audio_channels == channels_for(assets, src)
}

/// The spine clip written for media item `it`, whose asset is `a`.
pub open spec fn clip_for<F: Fn(i64, u32) -> String>(
    c: FcpClip,
    a: FcpAsset,
    it: SequenceItem,
    fps: Fps,
    seconds: F,
) -> bool {
    &&& c.name@ == a.name@ && is_v4_uid(c.uid@)
    &&& c.duration@ == a.duration@
    &&& seconds_of(seconds, it.from, fps, c.start)
    &&& c.offset@ == "0s"@
    &&& c.ref_id@ == a.id@
    &&& c.format == a.format
    &&& c.audio_subitems@.len() == 0
}

/// The colour-space label of the format resource.
pub open spec fn color_space_label(c: ColorSpace) -> Seq<char> {
    match c {
        ColorSpace::Rec709 => "1-1-1 (Rec. 709)"@,
        ColorSpace::Rec2020 => "9-18-9 (Rec. 2020 HLG)"@,
        ColorSpace::DciP3 => "5-4-6 (DCI-P3 D65)"@,
        ColorSpace::AdobeRgb => "1-1-1 (Rec. 709)"@,
    }
}

/// The format resource of a sequence: `r1`, named by height and rate.
pub open spec fn format_for<F: Fn(i64, u32) -> String>(
    f: FcpFormat,
    s: Sequence,
    config: ExportConfig,
    seconds: F,
) -> bool {
    &&& f.id@ == "r1"@
    &&& f.name@ == decimal(s.height as nat) + "p"@ + decimal(s.fps.num as nat)
    &&& call_ensures(seconds, (s.fps.den as i64, s.fps.num), f.frame_duration)
    &&& f.width == s.width
    &&& f.height == s.height
    &&& f.color_space@ == color_space_label(config.color_space)
}

/// The document version written for an export format.
pub open spec fn version_label(f: ExportFormat) -> Seq<char> {
    if f == ExportFormat::FcpXml1_9 {
        "1.9"@
    } else {
        "1.10"@
    }
}

/// `x` describes sequence `s`: one asset and one clip per media item, in
/// track order, the sequence's own format, name and duration, and a single
/// event named after the project.  Only the random identifiers are free,
/// and of them only which ones were drawn: each has the form of a random
/// UUID.
pub open spec fn describes<F: Fn(i64, u32) -> String>(
    x: FcpXml,
    s: Sequence,
    assets: Seq<AssetInfo>,
    config: ExportConfig,
    seconds: F,
) -> bool {
    let media = media_in(s.tracks@);
    let seq = x.project.sequence;
    let clips = seq.spine.clips@;
    &&& x.version@ == version_label(config.format)
    &&& x.project.name@ == config.project_name@
    &&& is_v4_uid(x.project.uid@) && is_v4_uid(seq.uid@) && is_v4_uid(x.project.events@[0].uid@)
    &&& seq.name@ == s.name@
    &&& seconds_of(seconds, s.duration_in_frames, s.fps, seq.duration)
    &&& format_for(seq.format, s, config, seconds)
    &&& x.project.events@.len() == 1
    &&& x.project.events@[0].name@ == config.project_name@
    &&& x.project.events@[0].resources.media@.len() == 0
    &&& x.project.events@[0].resources.formats@ == seq![seq.format]
    &&& clips.len() == media.len()
    &&& x.project.events@[0].resources.assets@.len() == media.len()
    &&& forall|k: int|
        0 <= k < media.len() ==> {
            &&& asset_for(
                #[trigger] x.project.events@[0].resources.assets@[k],
                media[k],
                s.fps,
                assets,
                seconds,
            )
            &&& clip_for(clips[k], x.project.events@[0].resources.assets@[k], media[k], s.fps, seconds)
        }
}

// ---------------------------------------------------------------------------
// Building
// ---------------------------------------------------------------------------

/// The audio channel count of the first asset at path `p`.
fn find_channels(assets: &Vec<AssetInfo>, p: &String) -> (r: Option<u32>)
    ensures
        r == channels_for(assets@, p@),
{
    let n = assets.len();
    let mut i: usize = 0;
    assert(assets@.skip(0) =~= assets@);
    while i < n
        invariant
            n == assets@.len(),
            0 <= i <= n,
            channels_for(assets@, p@) == channels_for(assets@.skip(i as int), p@),
        decreases n - i,
    {
        let ghost rest = assets@.skip(i as int);
        assert(rest.drop_first() =~= assets@.skip(i + 1));
        assert(rest[0] == assets@[i as int]);
        if assets[i].path == *p {
            return assets[i].audio_channels;
        }
        i = i + 1;
    }
    assert(assets@.skip(n as int).len() == 0);
    None
}

/// "0s" as owned text.
fn zero_seconds() -> (r: String)
    ensures
        r@ == "0s"@,
{
    String::from_str("0s")
}

fn format_ref() -> (r: String)
    ensures
        r@ == "r1"@,
{
    String::from_str("r1")
}

/// The asset and clip written for one item, or `None` for a generated item.
fn media_entry<F: Fn(i64, u32) -> String>(
    item: &SequenceItem,
    fps: Fps,
    assets: &Vec<AssetInfo>,
    seconds: &F,
) -> (r: Option<(FcpAsset, FcpClip)>)
    requires
        forall|a: i64, b: u32| call_requires(*seconds, (a, b)),
        scale_fits(item.from, fps),
        scale_fits(item.duration_in_frames, fps),
    ensures
        r is Some <==> is_media(item.kind),
        r matches Some(e) ==> asset_for(e.0, *item, fps, assets@, *seconds) && clip_for(
            e.1,
            e.0,
            *item,
            fps,
            *seconds,
        ),
{
    let src: &String = match &item.kind {
        ItemKind::Video { src } => src,
        ItemKind::Audio { src } => src,
        ItemKind::Image { src } => src,
        ItemKind::Generated => {
            return None;
        },
    };
    let is_audio = match &item.kind {
        ItemKind::Audio { .. } => true,
        _ => false,
    };
    let is_image = match &item.kind {
        ItemKind::Image { .. } => true,
        _ => false,
    };
    let channels = find_channels(assets, src);
    let den = fps.den as i64;
    let duration = seconds(item.duration_in_frames * den, fps.num);
    let start = seconds(item.from * den, fps.num);
    let name = match file_stem(src.as_str()) {
        Some(s) => s,
        None => String::from_str("Unknown"),
    };
    let asset_uid = random_uid();
    let clip_uid = random_uid();
    let format = if is_audio {
        None
    } else {
        Some(format_ref())
    };
    let asset = FcpAsset {
        id: asset_uid.clone(),
        name: name.clone(),
        uid: asset_uid.clone(),
        src: src.clone(),
        start: zero_seconds(),
        duration: duration.clone(),
        has_video: !is_audio,
        has_audio: !is_image,
        format: format.clone(),
        audio_sources: channels,
        audio_channels: channels,
    };
    let clip = FcpClip {
        name,
        uid: clip_uid,
        duration,
        start,
        offset: zero_seconds(),
        ref_id: asset_uid,
        format,
        audio_subitems: Vec::new(),
    };
    Some((asset, clip))
}

proof fn lemma_media_in_step(tracks: Seq<SequenceTrack>, t: int)
    requires
        0 <= t < tracks.len(),
    ensures
        media_in(tracks.take(t + 1)) == media_in(tracks.take(t)) + media_of(tracks[t].items@),
{
    assert(tracks.take(t + 1).drop_last() =~= tracks.take(t));
}

proof fn lemma_media_of_step(items: Seq<SequenceItem>, j: int)
    requires
        0 <= j < items.len(),
    ensures
        media_of(items.take(j + 1)) == if is_media(items[j].kind) {
            media_of(items.take(j)).push(items[j])
        } else {
            media_of(items.take(j))
        },
{
    assert(items.take(j + 1).drop_last() =~= items.take(j));
}

/// The format resource of a sequence.
fn format_of<F: Fn(i64, u32) -> String>(s: &Sequence, config: &ExportConfig, seconds: &F) -> (f: FcpFormat)
    requires
        forall|a: i64, b: u32| call_requires(*seconds, (a, b)),
    ensures
        format_for(f, *s, *config, *seconds),
{
    let label = match config.color_space {
        ColorSpace::Rec709 => String::from_str("1-1-1 (Rec. 709)"),
        ColorSpace::Rec2020 => String::from_str("9-18-9 (Rec. 2020 HLG)"),
        ColorSpace::DciP3 => String::from_str("5-4-6 (DCI-P3 D65)"),
        ColorSpace::AdobeRgb => String::from_str("1-1-1 (Rec. 709)"),
    };
    let name = decimal_string(s.height as u64).concat("p");
    let rate = decimal_string(s.fps.num as u64);
    let name = name.concat(rate.as_str());
    FcpFormat {
        id: format_ref(),
        name,
        frame_duration: seconds(s.fps.den as i64, s.fps.num),
        width: s.width,
        height: s.height,
        color_space: label,
    }
}

impl FcpXml {
    /// Describe `sequence`: one asset resource and one spine clip per media
    /// item, track by track, with fresh random identifiers.
    pub fn from_sequence<F: Fn(i64, u32) -> String>(
        sequence: &Sequence,
        assets: &Vec<AssetInfo>,
        config: &ExportConfig,
        seconds: &F,
    ) -> (x: Self)
        requires
            forall|a: i64, b: u32| call_requires(*seconds, (a, b)),
            times_fit(*sequence),
        ensures
            describes(x, *sequence, assets@, *config, *seconds),
    {
        let project_uid = random_uid();
        let sequence_uid = random_uid();
        let event_uid = random_uid();
        let fps = sequence.fps;
        let total = seconds(sequence.duration_in_frames * (fps.den as i64), fps.num);
        let format = format_of(sequence, config, seconds);
        let mut clips: Vec<FcpClip> = Vec::new();
        let mut fcp_assets: Vec<FcpAsset> = Vec::new();
        let tracks = &sequence.tracks;
        let nt = tracks.len();
        let mut t: usize = 0;
        while t < nt
            invariant
                nt == tracks@.len(),
                *tracks == sequence.tracks,
                fps == sequence.fps,
                times_fit(*sequence),
                forall|a: i64, b: u32| call_requires(*seconds, (a, b)),
                0 <= t <= nt,
                clips@.len() == media_in(tracks@.take(t as int)).len(),
                fcp_assets@.len() == clips@.len(),
                forall|k: int|
                    0 <= k < clips@.len() ==> {
                        &&& asset_for(
                            #[trigger] fcp_assets@[k],
                            media_in(tracks@.take(t as int))[k],
                            fps,
                            assets@,
                            *seconds,
                        )
                        &&& clip_for(
                            clips@[k],
                            fcp_assets@[k],
                            media_in(tracks@.take(t as int))[k],
                            fps,
                            *seconds,
                        )
                    },
            decreases nt - t,
        {
            let items = &tracks[t].items;
            let ni = items.len();
            let ghost before = media_in(tracks@.take(t as int));
            let mut j: usize = 0;
            while j < ni
                invariant
                    nt == tracks@.len(),
                    0 <= t < nt,
                    *items == tracks@[t as int].items,
                    ni == items@.len(),
                    *tracks == sequence.tracks,
                    fps == sequence.fps,
                    times_fit(*sequence),
                    forall|a: i64, b: u32| call_requires(*seconds, (a, b)),
                    0 <= j <= ni,
                    clips@.len() == before.len() + media_of(items@.take(j as int)).len(),
                    fcp_assets@.len() == clips@.len(),
                    forall|k: int|
                        0 <= k < clips@.len() ==> {
                            &&& asset_for(
                                #[trigger] fcp_assets@[k],
                                (before + media_of(items@.take(j as int)))[k],
                                fps,
                                assets@,
                                *seconds,
                            )
                            &&& clip_for(
                                clips@[k],
                                fcp_assets@[k],
                                (before + media_of(items@.take(j as int)))[k],
                                fps,
                                *seconds,
                            )
                        },
                decreases ni - j,
            {
                let item = &items[j];
                assert(scale_fits(item.from, fps) && scale_fits(item.duration_in_frames, fps)) by {
                    assert(sequence.tracks@[t as int].items@[j as int] == *item);
                    assert(scale_fits(sequence.tracks@[t as int].items@[j as int].from, fps));
                }
                proof {
                    lemma_media_of_step(items@, j as int);
                }
                let ghost old_seq = before + media_of(items@.take(j as int));
                let ghost new_seq = before + media_of(items@.take(j + 1));
                match media_entry(item, fps, assets, seconds) {
                    Some(entry) => {
                        let (asset, clip) = entry;
                        fcp_assets.push(asset);
                        clips.push(clip);
                        assert(new_seq =~= old_seq.push(*item));
                    },
                    None => {
                        assert(new_seq =~= old_seq);
                    },
                }
                j = j + 1;
            }
            proof {
                assert(items@.take(ni as int) =~= items@);
                lemma_media_in_step(tracks@, t as int);
            }
            t = t + 1;
        }
        assert(tracks@.take(nt as int) =~= tracks@);
        let version = if config.format == ExportFormat::FcpXml1_9 {
            String::from_str("1.9")
        } else {
            String::from_str("1.10")
        };
        let seq_format = format.duplicate();
        let mut formats: Vec<FcpFormat> = Vec::new();
        formats.push(format);
        let resources = FcpResources { assets: fcp_assets, media: Vec::new(), formats };
        let event = FcpEvent { name: config.project_name.clone(), uid: event_uid, resources };
        let mut events: Vec<FcpEvent> = Vec::new();
        events.push(event);
        let fcp_sequence = FcpSequence {
            name: sequence.name.clone(),
            uid: sequence_uid,
            duration: total,
            format: seq_format,
            spine: FcpSpine { clips },
        };
        let x = FcpXml {
            version,
            project: FcpProject {
                name: config.project_name.clone(),
                uid: project_uid,
                sequence: fcp_sequence,
                events,
            },
        };
        assert(x.project.events@[0].resources.formats@ =~= seq![x.project.sequence.format]);
        x
    }
}

// ---------------------------------------------------------------------------
// Reading back
// ---------------------------------------------------------------------------

/// The asset resources of all events, event by event.
pub open spec fn event_assets(events: Seq<FcpEvent>) -> Seq<FcpAsset>
    decreases events.len(),
{
    if events.len() == 0 {
        Seq::empty()
    } else {
        events[0].resources.assets@ + event_assets(events.drop_first())
    }
}

/// The first asset with identifier `id`.
pub open spec fn asset_with_id(assets: Seq<FcpAsset>, id: Seq<char>) -> Option<FcpAsset>
    decreases assets.len(),
{
    if assets.len() == 0 {
        None
    } else if assets[0].id@ == id {
        Some(assets[0])
    } else {
        asset_with_id(assets.drop_first(), id)
    }
}

/// The clips whose asset is found, each with its asset, in spine order.
pub open spec fn resolved(clips: Seq<FcpClip>, all: Seq<FcpAsset>) -> Seq<(FcpClip, FcpAsset)>
    decreases clips.len(),
{
    if clips.len() == 0 {
        Seq::empty()
    } else {
        let rest = resolved(clips.drop_last(), all);
        match asset_with_id(all, clips.last().ref_id@) {
            Some(a) => rest.push((clips.last(), a)),
            None => rest,
        }
    }
}

/// The resolved clips that carry video (`video`) or not (`!video`).
pub open spec fn with_video(r: Seq<(FcpClip, FcpAsset)>, video: bool) -> Seq<(FcpClip, FcpAsset)>
    decreases r.len(),
{
    if r.len() == 0 {
        Seq::empty()
    } else if r.last().1.has_video == video {
        with_video(r.drop_last(), video).push(r.last())
    } else {
        with_video(r.drop_last(), video)
    }
}

/// The frame rate an imported document is read at.
pub open spec fn import_fps() -> Fps {
    Fps { num: 30, den: 1 }
}

/// The asset record read back from an asset resource.
pub open spec fn info_from(info: AssetInfo, a: FcpAsset, x: FcpXml, config: ExportConfig) -> bool {
    let f = x.project.sequence.format;
    &&& info.id@ == a.id@
    &&& info.path@ == a.src@
    &&& info.relative_path is None
    &&& info.kind == (if a.has_video {
        AssetKind::Video
    } else if a.has_audio {
        AssetKind::Audio
    } else {
        AssetKind::Image
    })
    &&& info.width == Some(f.width)
    &&& info.height == Some(f.height)
    &&& info.duration_frames is None
    &&& info.fps == Some(import_fps())
    &&& info.audio_channels == a.audio_channels
    &&& info.sample_rate is None
    &&& info.timecode is None
    &&& info.color_space == Some(config.color_space)
    &&& info.file_size is None
    &&& info.hash is None
}

/// The timeline item read back from a clip and its asset: at frame 0, 150
/// frames long.
pub open spec fn item_from(it: SequenceItem, c: FcpClip, a: FcpAsset) -> bool {
    &&& it.id@ == c.uid@
    &&& it.from == 0
    &&& it.duration_in_frames == 150
    &&& (if a.has_video {
        it.kind matches ItemKind::Video { src } && src@ == a.src@
    } else if a.has_audio {
        it.kind matches ItemKind::Audio { src } && src@ == a.src@
    } else {
        it.kind matches ItemKind::Image { src } && src@ == a.src@
    })
}

/// `items` are the items read back from the resolved clips `r`.
pub open spec fn items_from(items: Seq<SequenceItem>, r: Seq<(FcpClip, FcpAsset)>) -> bool {
    &&& items.len() == r.len()
    &&& forall|k: int| 0 <= k < r.len() ==> item_from(#[trigger] items[k], r[k].0, r[k].1)
}

/// `s` and `infos` are what a document reads back as: a 30 fps sequence
/// named and sized after the document, a "V1" track of the clips with video
/// and an "A1" track of the others (each only when not empty), and one
/// asset record per resolved clip.
pub open spec fn read_back(s: Sequence, infos: Seq<AssetInfo>, x: FcpXml, config: ExportConfig) -> bool {
    let f = x.project.sequence.format;
    let r = resolved(x.project.sequence.spine.clips@, event_assets(x.project.events@));
    let v = with_video(r, true);
    let a = with_video(r, false);
    &&& s.name@ == x.project.sequence.name@
    &&& s.width == f.width
    &&& s.height == f.height
    &&& s.fps == import_fps()
    &&& s.duration_in_frames == 0
    &&& infos.len() == r.len()
    &&& forall|k: int| 0 <= k < r.len() ==> info_from(#[trigger] infos[k], r[k].1, x, config)
    &&& s.tracks@.len() == (if v.len() > 0 { 1int } else { 0 }) + (if a.len() > 0 { 1int } else { 0 })
    &&& v.len() > 0 ==> s.tracks@[0].name@ == "V1"@ && items_from(s.tracks@[0].items@, v)
    &&& a.len() > 0 ==> s.tracks@.last().name@ == "A1"@ && items_from(s.tracks@.last().items@, a)
}

proof fn lemma_event_assets_step(events: Seq<FcpEvent>, e: int)
    requires
        0 <= e < events.len(),
    ensures
        event_assets(events.skip(e)) == events[e].resources.assets@ + event_assets(events.skip(e + 1)),
{
    assert(events.skip(e)[0] == events[e]);
    assert(events.skip(e).drop_first() =~= events.skip(e + 1));
}

proof fn lemma_with_video_step(r: Seq<(FcpClip, FcpAsset)>, p: (FcpClip, FcpAsset), video: bool)
    ensures
        with_video(r.push(p), video) == if p.1.has_video == video {
            with_video(r, video).push(p)
        } else {
            with_video(r, video)
        },
{
    assert(r.push(p).drop_last() =~= r);
}

impl FcpXml {
    /// The first asset resource, over all events, with identifier `id`.
    fn find_asset(&self, id: &String) -> (r: Option<&FcpAsset>)
        ensures
            match r {
                Some(a) => asset_with_id(event_assets(self.project.events@), id@) == Some(*a),
                None => asset_with_id(event_assets(self.project.events@), id@) is None,
            },
    {
        let events = &self.project.events;
        let ne = events.len();
        let mut e: usize = 0;
        assert(events@.skip(0) =~= events@);
        while e < ne
            invariant
                ne == events@.len(),
                *events == self.project.events,
                0 <= e <= ne,
                asset_with_id(event_assets(events@), id@) == asset_with_id(
                    event_assets(events@.skip(e as int)),
                    id@,
                ),
            decreases ne - e,
        {
            let assets = &events[e].resources.assets;
            let na = assets.len();
            let ghost rest = event_assets(events@.skip(e + 1));
            proof {
                lemma_event_assets_step(events@, e as int);
                assert(assets@.skip(0) =~= assets@);
            }
            let mut i: usize = 0;
            while i < na
                invariant
                    na == assets@.len(),
                    *events == self.project.events,
                    0 <= i <= na,
                    asset_with_id(event_assets(events@), id@) == asset_with_id(
                        assets@.skip(i as int) + rest,
                        id@,
                    ),
                decreases na - i,
            {
                let ghost cur = assets@.skip(i as int) + rest;
                assert(cur[0] == assets@[i as int]);
                if assets[i].id == *id {
                    assert(cur.len() > 0);
                    assert(asset_with_id(cur, id@) == Some(assets@[i as int]));
                    return Some(&assets[i]);
                }
                assert(cur.drop_first() =~= assets@.skip(i + 1) + rest);
                i = i + 1;
            }
            assert(assets@.skip(na as int) + rest =~= rest);
            e = e + 1;
        }
        assert(events@.skip(ne as int) =~= Seq::<FcpEvent>::empty());
        None
    }

    /// A document read from XML text.  The reader keeps none of the text:
    /// it gives an empty 1080p30 document with fresh random identifiers.
    pub fn from_xml(_xml_content: &str) -> (x: Self)
        ensures
            x.version@ == "1.10"@,
            x.project.name@ == "Imported Project"@,
            is_v4_uid(x.project.uid@),
            is_v4_uid(x.project.sequence.uid@),
            x.project.sequence.name@ == "Imported Sequence"@,
            x.project.sequence.duration@ == "0s"@,
            x.project.sequence.format.id@ == "r1"@,
            x.project.sequence.format.name@ == "1080p30"@,
            x.project.sequence.format.frame_duration@ == "1/30s"@,
            x.project.sequence.format.width == 1920,
            x.project.sequence.format.height == 1080,
            x.project.sequence.format.color_space@ == "1-1-1 (Rec. 709)"@,
            x.project.sequence.spine.clips@.len() == 0,
            x.project.events@.len() == 0,
    {
        FcpXml {
            version: String::from_str("1.10"),
            project: FcpProject {
                name: String::from_str("Imported Project"),
                uid: random_uid(),
                sequence: FcpSequence {
                    name: String::from_str("Imported Sequence"),
                    uid: random_uid(),
                    duration: zero_seconds(),
                    format: FcpFormat {
                        id: format_ref(),
                        name: String::from_str("1080p30"),
                        frame_duration: String::from_str("1/30s"),
                        width: 1920,
                        height: 1080,
                        color_space: String::from_str("1-1-1 (Rec. 709)"),
                    },
                    spine: FcpSpine { clips: Vec::new() },
                },
                events: Vec::new(),
            },
        }
    }

    /// The asset record and the timeline item read back from a clip whose
    /// asset is `a`.
    fn read_clip(&self, clip: &FcpClip, a: &FcpAsset, config: &ExportConfig) -> (r: (AssetInfo, SequenceItem))
        ensures
            info_from(r.0, *a, *self, *config),
            item_from(r.1, *clip, *a),
    {
        let f = &self.project.sequence.format;
        let kind = if a.has_video {
            AssetKind::Video
        } else if a.has_audio {
            AssetKind::Audio
        } else {
            AssetKind::Image
        };
        let info = AssetInfo {
            id: a.id.clone(),
            path: a.src.clone(),
            relative_path: None,
            kind,
            width: Some(f.width),
            height: Some(f.height),
            duration_frames: None,
            fps: Some(Fps::new(30, 1)),
            audio_channels: a.audio_channels,
            sample_rate: None,
            timecode: None,
            color_space: Some(config.color_space),
            file_size: None,
            hash: None,
        };
        let item_kind = if a.has_video {
            ItemKind::Video { src: a.src.clone() }
        } else if a.has_audio {
            ItemKind::Audio { src: a.src.clone() }
        } else {
            ItemKind::Image { src: a.src.clone() }
        };
        let item = SequenceItem { id: clip.uid.clone(), from: 0, duration_in_frames: 150, kind: item_kind };
        (info, item)
    }

    /// Read the document back into a sequence and its asset records.
    pub fn to_sequence(&self, config: &ExportConfig) -> (r: (Sequence, Vec<AssetInfo>))
        ensures
            read_back(r.0, r.1@, *self, *config),
    {
        let mut sequence = Sequence::new(
            self.project.sequence.name.as_str(),
            self.project.sequence.format.width,
            self.project.sequence.format.height,
            Fps::new(30, 1),
            0,
        );
        let ghost all = event_assets(self.project.events@);
        let clips = &self.project.sequence.spine.clips;
        let n = clips.len();
        let mut infos: Vec<AssetInfo> = Vec::new();
        let mut video: Vec<SequenceItem> = Vec::new();
        let mut audio: Vec<SequenceItem> = Vec::new();
        let mut i: usize = 0;
        while i < n
            invariant
                n == clips@.len(),
                *clips == self.project.sequence.spine.clips,
                all == event_assets(self.project.events@),
                0 <= i <= n,
                infos@.len() == resolved(clips@.take(i as int), all).len(),
                forall|k: int|
                    0 <= k < infos@.len() ==> info_from(
                        #[trigger] infos@[k],
                        resolved(clips@.take(i as int), all)[k].1,
                        *self,
                        *config,
                    ),
                items_from(video@, with_video(resolved(clips@.take(i as int), all), true)),
                items_from(audio@, with_video(resolved(clips@.take(i as int), all), false)),
            decreases n - i,
        {
            let clip = &clips[i];
            let ghost before = resolved(clips@.take(i as int), all);
            assert(clips@.take(i + 1).drop_last() =~= clips@.take(i as int));
            match self.find_asset(&clip.ref_id) {
                Some(a) => {
                    let (info, item) = self.read_clip(clip, a, config);
                    infos.push(info);
                    proof {
                        lemma_with_video_step(before, (*clip, *a), true);
                        lemma_with_video_step(before, (*clip, *a), false);
                    }
                    if a.has_video {
                        video.push(item);
                    } else {
                        audio.push(item);
                    }
                },
                None => {},
            }
            i = i + 1;
        }
        assert(clips@.take(n as int) =~= clips@);
        let has_video = video.len() > 0;
        let has_audio = audio.len() > 0;
        if has_video {
            sequence.add_track(SequenceTrack { name: String::from_str("V1"), items: video });
        }
        if has_audio {
            sequence.add_track(SequenceTrack { name: String::from_str("A1"), items: audio });
        }
        (sequence, infos)
    }
}

// ---------------------------------------------------------------------------
// Writing XML
// ---------------------------------------------------------------------------

/// `"1"` or `"0"`.
pub open spec fn flag_text(b: bool) -> Seq<char> {
    if b {
        "1"@
    } else {
        "0"@
    }
}

/// The events of one spine clip: its start tag and its end tag.
pub open spec fn clip_xml(c: FcpClip) -> Seq<XmlEventView> {
    let attrs = seq![
        ("name"@, c.name@),
        ("uid"@, c.uid@),
        ("duration"@, c.duration@),
        ("start"@, c.start@),
        ("offset"@, c.offset@),
        ("ref"@, c.ref_id@),
    ] + match c.format {
        Some(f) => seq![("format"@, f@)],
        None => Seq::empty(),
    };
    seq![XmlEventView::Start("clip"@, attrs), XmlEventView::End("clip"@)]
}

pub open spec fn clips_xml(cs: Seq<FcpClip>) -> Seq<XmlEventView>
    decreases cs.len(),
{
    if cs.len() == 0 {
        Seq::empty()
    } else {
        clips_xml(cs.drop_last()) + clip_xml(cs.last())
    }
}

/// The empty-element tag of a format resource.
pub open spec fn format_xml(f: FcpFormat) -> XmlEventView {
    XmlEventView::Empty(
        "format"@,
        seq![
            ("id"@, f.id@),
            ("name"@, f.name@),
            ("frameDuration"@, f.frame_duration@),
            ("width"@, decimal(f.width as nat)),
            ("height"@, decimal(f.height as nat)),
            ("colorSpace"@, f.color_space@),
        ],
    )
}

pub open spec fn formats_xml(fs: Seq<FcpFormat>) -> Seq<XmlEventView>
    decreases fs.len(),
{
    if fs.len() == 0 {
        Seq::empty()
    } else {
        formats_xml(fs.drop_last()).push(format_xml(fs.last()))
    }
}

/// The empty-element tag of an asset resource (the channel count written
/// when known; the source count is not written).
pub open spec fn asset_xml(a: FcpAsset) -> XmlEventView {
    XmlEventView::Empty(
        "asset"@,
        seq![
            ("id"@, a.id@),
            ("name"@, a.name@),
            ("uid"@, a.uid@),
            ("src"@, a.src@),
            ("start"@, a.start@),
            ("duration"@, a.duration@),
            ("hasVideo"@, flag_text(a.has_video)),
            ("hasAudio"@, flag_text(a.has_audio)),
        ] + match a.format {
            Some(f) => seq![("format"@, f@)],
            None => Seq::empty(),
        } + match a.audio_channels {
            Some(c) => seq![("audioChannels"@, decimal(c as nat))],
            None => Seq::empty(),
        },
    )
}

pub open spec fn assets_xml(assets: Seq<FcpAsset>) -> Seq<XmlEventView>
    decreases assets.len(),
{
    if assets.len() == 0 {
        Seq::empty()
    } else {
        assets_xml(assets.drop_last()).push(asset_xml(assets.last()))
    }
}

/// The events of an event element: its resources' formats, then assets.
pub open spec fn event_xml(e: FcpEvent) -> Seq<XmlEventView> {
    seq![
        XmlEventView::Start("event"@, seq![("name"@, e.name@), ("uid"@, e.uid@)]),
        XmlEventView::Start("resources"@, Seq::empty()),
    ] + formats_xml(e.resources.formats@) + assets_xml(e.resources.assets@) + seq![
        XmlEventView::End("resources"@),
        XmlEventView::End("event"@),
    ]
}

pub open spec fn events_xml(es: Seq<FcpEvent>) -> Seq<XmlEventView>
    decreases es.len(),
{
    if es.len() == 0 {
        Seq::empty()
    } else {
        events_xml(es.drop_last()) + event_xml(es.last())
    }
}

/// The events of the sequence element and its spine.
pub open spec fn sequence_xml(s: FcpSequence) -> Seq<XmlEventView> {
    seq![
        XmlEventView::Start(
            "sequence"@,
            seq![("name"@, s.name@), ("uid"@, s.uid@), ("duration"@, s.duration@), ("format"@, s.format.id@)],
        ),
        XmlEventView::Start("spine"@, Seq::empty()),
    ] + clips_xml(s.spine.clips@) + seq![XmlEventView::End("spine"@), XmlEventView::End("sequence"@)]
}

/// The events of a whole document, in writing order.
pub open spec fn document_xml(x: FcpXml) -> Seq<XmlEventView> {
    seq![
        XmlEventView::Decl("1.0"@, "UTF-8"@),
        XmlEventView::Start("fcpxml"@, seq![("version"@, x.version@)]),
        XmlEventView::Start("project"@, seq![("name"@, x.project.name@), ("uid"@, x.project.uid@)]),
    ] + sequence_xml(x.project.sequence) + events_xml(x.project.events@) + seq![
        XmlEventView::End("project"@),
        XmlEventView::End("fcpxml"@),
    ]
}

fn end_tag(name: &str) -> (e: XmlEvent)
    ensures
        e@ == XmlEventView::End(name@),
{
    XmlEvent::End { name: String::from_str(name) }
}

fn bare_start(name: &str) -> (e: XmlEvent)
    ensures
        e@ == XmlEventView::Start(name@, Seq::empty()),
{
    let attrs: Vec<(String, String)> = Vec::new();
    assert(attrs_view(attrs@) =~= Seq::empty());
    XmlEvent::Start { name: String::from_str(name), attrs }
}

fn write_clip(out: &mut XmlOut, clip: &FcpClip)
    requires
        old(out).wf(),
    ensures
        final(out).wf(),
        final(out).written@ == old(out).written@ + clip_xml(*clip),
{
    let mut attrs: Vec<(String, String)> = Vec::new();
    attrs.push(attr("name", clip.name.as_str()));
    attrs.push(attr("uid", clip.uid.as_str()));
    attrs.push(attr("duration", clip.duration.as_str()));
    attrs.push(attr("start", clip.start.as_str()));
    attrs.push(attr("offset", clip.offset.as_str()));
    attrs.push(attr("ref", clip.ref_id.as_str()));
    match &clip.format {
        Some(f) => {
            attrs.push(attr("format", f.as_str()));
        },
        None => {},
    }
    let ghost evs = clip_xml(*clip);
    assert(attrs_view(attrs@) =~= (match evs[0] {
        XmlEventView::Start(_, a) => a,
        _ => Seq::empty(),
    }));
    let ghost before = out.written@;
    out.put(XmlEvent::Start { name: String::from_str("clip"), attrs });
    out.put(end_tag("clip"));
    assert(out.written@ =~= before + evs);
}

fn write_format(out: &mut XmlOut, f: &FcpFormat)
    requires
        old(out).wf(),
    ensures
        final(out).wf(),
        final(out).written@ == old(out).written@.push(format_xml(*f)),
{
    let mut attrs: Vec<(String, String)> = Vec::new();
    attrs.push(attr("id", f.id.as_str()));
    attrs.push(attr("name", f.name.as_str()));
    attrs.push(attr("frameDuration", f.frame_duration.as_str()));
    attrs.push(attr("width", decimal_string(f.width as u64).as_str()));
    attrs.push(attr("height", decimal_string(f.height as u64).as_str()));
    attrs.push(attr("colorSpace", f.color_space.as_str()));
    let e = XmlEvent::Empty { name: String::from_str("format"), attrs };
    assert(e@ =~= format_xml(*f));
    out.put(e)
}

fn write_asset(out: &mut XmlOut, a: &FcpAsset)
    requires
        old(out).wf(),
    ensures
        final(out).wf(),
        final(out).written@ == old(out).written@.push(asset_xml(*a)),
{
    let mut attrs: Vec<(String, String)> = Vec::new();
    attrs.push(attr("id", a.id.as_str()));
    attrs.push(attr("name", a.name.as_str()));
    attrs.push(attr("uid", a.uid.as_str()));
    attrs.push(attr("src", a.src.as_str()));
    attrs.push(attr("start", a.start.as_str()));
    attrs.push(attr("duration", a.duration.as_str()));
    attrs.push(attr("hasVideo", if a.has_video { "1" } else { "0" }));
    attrs.push(attr("hasAudio", if a.has_audio { "1" } else { "0" }));
    match &a.format {
        Some(f) => {
            attrs.push(attr("format", f.as_str()));
        },
        None => {},
    }
    match a.audio_channels {
        Some(c) => {
            attrs.push(attr("audioChannels", decimal_string(c as u64).as_str()));
        },
        None => {},
    }
    let e = XmlEvent::Empty { name: String::from_str("asset"), attrs };
    assert(e@ =~= asset_xml(*a));
    out.put(e)
}

fn write_event(out: &mut XmlOut, event: &FcpEvent)
    requires
        old(out).wf(),
    ensures
        final(out).wf(),
        final(out).written@ == old(out).written@ + event_xml(*event),
{
    let ghost before = out.written@;
    let mut attrs: Vec<(String, String)> = Vec::new();
    attrs.push(attr("name", event.name.as_str()));
    attrs.push(attr("uid", event.uid.as_str()));
    let start = XmlEvent::Start { name: String::from_str("event"), attrs };
    assert(start@ =~= XmlEventView::Start("event"@, seq![("name"@, event.name@), ("uid"@, event.uid@)]));
    out.put(start);
    out.put(bare_start("resources"));
    let ghost head = out.written@;
    let formats = &event.resources.formats;
    let nf = formats.len();
    let mut i: usize = 0;
    while i < nf
        invariant
            nf == formats@.len(),
            *formats == event.resources.formats,
            0 <= i <= nf,
            out.wf(),
            out.written@ == head + formats_xml(formats@.take(i as int)),
        decreases nf - i,
    {
        write_format(out, &formats[i]);
        assert(formats@.take(i + 1).drop_last() =~= formats@.take(i as int));
        assert(out.written@ =~= head + formats_xml(formats@.take(i + 1)));
        i = i + 1;
    }
    assert(formats@.take(nf as int) =~= formats@);
    let ghost mid = out.written@;
    let assets = &event.resources.assets;
    let na = assets.len();
    let mut j: usize = 0;
    while j < na
        invariant
            na == assets@.len(),
            *assets == event.resources.assets,
            0 <= j <= na,
            out.wf(),
            out.written@ == mid + assets_xml(assets@.take(j as int)),
        decreases na - j,
    {
        write_asset(out, &assets[j]);
        assert(assets@.take(j + 1).drop_last() =~= assets@.take(j as int));
        assert(out.written@ =~= mid + assets_xml(assets@.take(j + 1)));
        j = j + 1;
    }
    assert(assets@.take(na as int) =~= assets@);
    out.put(end_tag("resources"));
    out.put(end_tag("event"));
    assert(out.written@ =~= before + event_xml(*event));
}

impl FcpXml {
    fn write_sequence(&self, out: &mut XmlOut)
        requires
            old(out).wf(),
        ensures
            final(out).wf(),
            final(out).written@ == old(out).written@ + sequence_xml(
                self.project.sequence,
            ),
    {
        let seq = &self.project.sequence;
        let ghost before = out.written@;
        let mut attrs: Vec<(String, String)> = Vec::new();
        attrs.push(attr("name", seq.name.as_str()));
        attrs.push(attr("uid", seq.uid.as_str()));
        attrs.push(attr("duration", seq.duration.as_str()));
        attrs.push(attr("format", seq.format.id.as_str()));
        let start = XmlEvent::Start { name: String::from_str("sequence"), attrs };
        assert(start@ =~= XmlEventView::Start(
            "sequence"@,
            seq![("name"@, seq.name@), ("uid"@, seq.uid@), ("duration"@, seq.duration@), ("format"@, seq.format.id@)],
        ));
        out.put(start);
        out.put(bare_start("spine"));
        let ghost head = out.written@;
        let clips = &seq.spine.clips;
        let n = clips.len();
        let mut i: usize = 0;
        while i < n
            invariant
                n == clips@.len(),
                *clips == seq.spine.clips,
                0 <= i <= n,
                out.wf(),
                out.written@ == head + clips_xml(clips@.take(i as int)),
            decreases n - i,
        {
            write_clip(out, &clips[i]);
            assert(clips@.take(i + 1).drop_last() =~= clips@.take(i as int));
            assert(out.written@ =~= head + clips_xml(clips@.take(i + 1)));
            i = i + 1;
        }
        assert(clips@.take(n as int) =~= clips@);
        out.put(end_tag("spine"));
        out.put(end_tag("sequence"));
        assert(out.written@ =~= before + sequence_xml(*seq));
    }

    /// The document as XML text, each element written by `quick_xml`.
    pub fn to_xml(&self) -> (r: Result<String, anyhow::Error>)
        ensures
            r matches Ok(s) && s@ == events_text(document_xml(*self)),
    {
        let mut out = XmlOut::new();
        out.put(XmlEvent::Decl { version: "1.0", encoding: "UTF-8" });
        let mut attrs: Vec<(String, String)> = Vec::new();
        attrs.push(attr("version", self.version.as_str()));
        let root = XmlEvent::Start { name: String::from_str("fcpxml"), attrs };
        assert(root@ =~= XmlEventView::Start("fcpxml"@, seq![("version"@, self.version@)]));
        out.put(root);
        let mut attrs: Vec<(String, String)> = Vec::new();
        attrs.push(attr("name", self.project.name.as_str()));
        attrs.push(attr("uid", self.project.uid.as_str()));
        let project = XmlEvent::Start { name: String::from_str("project"), attrs };
        assert(project@ =~= XmlEventView::Start(
            "project"@,
            seq![("name"@, self.project.name@), ("uid"@, self.project.uid@)],
        ));
        out.put(project);
        self.write_sequence(&mut out);
        let ghost head = out.written@;
        let events = &self.project.events;
        let n = events.len();
        let mut i: usize = 0;
        while i < n
            invariant
                n == events@.len(),
                *events == self.project.events,
                0 <= i <= n,
                out.wf(),
                out.written@ == head + events_xml(events@.take(i as int)),
            decreases n - i,
        {
            write_event(&mut out, &events[i]);
            assert(events@.take(i + 1).drop_last() =~= events@.take(i as int));
            assert(out.written@ =~= head + events_xml(events@.take(i + 1)));
            i = i + 1;
        }
        assert(events@.take(n as int) =~= events@);
        out.put(end_tag("project"));
        out.put(end_tag("fcpxml"));
        assert(out.written@ =~= document_xml(*self));
        Ok(out.text)
    }
}

/// Whether every time of `s` can be scaled (see [`times_fit`]).
pub fn check_times_fit(s: &Sequence) -> (b: bool)
    ensures
        b == times_fit(*s),
{
    let den = s.fps.den as i64;
    match s.duration_in_frames.checked_mul(den) {
        None => {
            return false;
        },
        Some(_) => {},
    }
    let tracks = &s.tracks;
    let nt = tracks.len();
    let mut t: usize = 0;
    while t < nt
        invariant
            nt == tracks@.len(),
            *tracks == s.tracks,
            den == s.fps.den,
            0 <= t <= nt,
            forall|u: int, i: int|
                0 <= u < t && 0 <= i < s.tracks@[u].items@.len() ==> {
                    &&& scale_fits(#[trigger] s.tracks@[u].items@[i].from, s.fps)
                    &&& scale_fits(s.tracks@[u].items@[i].duration_in_frames, s.fps)
                },
        decreases nt - t,
    {
        let items = &tracks[t].items;
        let ni = items.len();
        let mut i: usize = 0;
        while i < ni
            invariant
                nt == tracks@.len(),
                *tracks == s.tracks,
                0 <= t < nt,
                *items == tracks@[t as int].items,
                ni == items@.len(),
                den == s.fps.den,
                0 <= i <= ni,
                forall|u: int, k: int|
                    0 <= u < t && 0 <= k < s.tracks@[u].items@.len() ==> {
                        &&& scale_fits(#[trigger] s.tracks@[u].items@[k].from, s.fps)
                        &&& scale_fits(s.tracks@[u].items@[k].duration_in_frames, s.fps)
                    },
                forall|k: int|
                    0 <= k < i ==> {
                        &&& scale_fits(#[trigger] items@[k].from, s.fps)
                        &&& scale_fits(items@[k].duration_in_frames, s.fps)
                    },
            decreases ni - i,
        {
            let it = &items[i];
            assert(s.tracks@[t as int].items@[i as int] == *it);
            match it.from.checked_mul(den) {
                None => {
                    return false;
                },
                Some(_) => {},
            }
            match it.duration_in_frames.checked_mul(den) {
                None => {
                    return false;
                },
                Some(_) => {},
            }
            assert(scale_fits(it.from, s.fps) && scale_fits(it.duration_in_frames, s.fps));
            assert forall|k: int| 0 <= k < i + 1 implies {
                &&& scale_fits(#[trigger] items@[k].from, s.fps)
                &&& scale_fits(items@[k].duration_in_frames, s.fps)
            } by {
                if k == i {
                    assert(items@[k] == *it);
                }
            }
            i = i + 1;
        }
        assert forall|u: int, k: int|
            0 <= u < t + 1 && 0 <= k < s.tracks@[u].items@.len() implies {
                &&& scale_fits(#[trigger] s.tracks@[u].items@[k].from, s.fps)
                &&& scale_fits(s.tracks@[u].items@[k].duration_in_frames, s.fps)
            } by {
            if u == t {
                assert(s.tracks@[u].items@[k] == items@[k]);
            }
        }
        t = t + 1;
    }
    true
}

} // verus!
