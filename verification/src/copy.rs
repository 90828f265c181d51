//! Deep copies of project data, with a proof that the copy holds the same
//! content: equal fields, and sequences holding copies element by element.

use vstd::prelude::*;
use crate::asset::{
    Asset, AssetMetadata, AudioAsset, AudioMetadata, ImageAsset, ImageMetadata, ProxyStatus, SubtitleAsset,
    VideoAsset, VideoMetadata,
};
use crate::clip::{Clip, Generator, SemanticClip};
use crate::effect::{EffectInstance, EffectKind, ParamValue, Params};
use crate::keyframe::{Keyframe, KeyframeProperty};
use crate::marker::Marker;
use crate::multicam::{MulticamAngle, MulticamClip};
use crate::plugin::PluginManifest;
use crate::plugin_edit::{copy_manifest, same_manifest};
use crate::project::Project;
use crate::timeline::Timeline;
use crate::track::Track;

verus! {

/// Values that can be copied with all their content.
pub trait DeepCopy: Sized {
    /// `b` holds the same content as `a`.
    spec fn same(a: Self, b: Self) -> bool;

    /// A copy holding the same content.
    fn deep_copy(&self) -> (r: Self)
        ensures
            Self::same(*self, r),
    ;
}

/// `b` holds, element by element, the same content as `a`.
pub open spec fn same_seq<T: DeepCopy>(a: Seq<T>, b: Seq<T>) -> bool {
    a.len() == b.len() && forall|i: int| 0 <= i < a.len() ==> #[trigger] T::same(a[i], b[i])
}

/// Two effect lists holding the same effects, one for one.
pub open spec fn same_effects(a: Seq<EffectInstance>, b: Seq<EffectInstance>) -> bool {
    same_seq(a, b)
}

/// Both absent, or both present with the same content.
pub open spec fn same_opt<T: DeepCopy>(a: Option<T>, b: Option<T>) -> bool {
    match a {
        Some(x) => b matches Some(y) && T::same(x, y),
        None => b is None,
    }
}

/// A vector of copies.
pub fn copy_vec<T: DeepCopy>(v: &Vec<T>) -> (r: Vec<T>)
    ensures
        same_seq(v@, r@),
{
    let mut r: Vec<T> = Vec::new();
    let mut i: usize = 0;
    while i < v.len()
        invariant
            0 <= i <= v@.len(),
            r@.len() == i,
            forall|j: int| 0 <= j < i ==> #[trigger] T::same(v@[j], r@[j]),
        decreases v@.len() - i,
    {
        r.push(v[i].deep_copy());
        i = i + 1;
    }
    r
}

/// A copy of an optional value.
pub fn copy_opt<T: DeepCopy>(o: &Option<T>) -> (r: Option<T>)
    ensures
        same_opt(*o, r),
{
    match o {
        Some(x) => Some(x.deep_copy()),
        None => None,
    }
}

/// A vector holding the same plain values.
pub fn copy_plain<T: Copy>(v: &Vec<T>) -> (r: Vec<T>)
    ensures
        r@ == v@,
{
    let mut r: Vec<T> = Vec::new();
    let mut i: usize = 0;
    while i < v.len()
        invariant
            0 <= i <= v@.len(),
            r@ == v@.subrange(0, i as int),
        decreases v@.len() - i,
    {
        r.push(v[i]);
        assert(r@ =~= v@.subrange(0, i + 1));
        i = i + 1;
    }
    assert(v@.subrange(0, v@.len() as int) =~= v@);
    r
}

impl DeepCopy for String {
    open spec fn same(a: Self, b: Self) -> bool {
        a == b
    }

    fn deep_copy(&self) -> (r: Self) {
        self.clone()
    }
}

impl DeepCopy for ParamValue {
    open spec fn same(a: Self, b: Self) -> bool {
        match a {
            ParamValue::Floats32(x) => b matches ParamValue::Floats32(y) && y@ == x@,
            ParamValue::Floats64(x) => b matches ParamValue::Floats64(y) && y@ == x@,
            _ => b == a,
        }
    }

    fn deep_copy(&self) -> (r: Self) {
        match self {
            ParamValue::Json(s) => ParamValue::Json(s.clone()),
            ParamValue::Int(v) => ParamValue::Int(*v),
            ParamValue::UInt(v) => ParamValue::UInt(*v),
            ParamValue::Float(v) => ParamValue::Float(*v),
            ParamValue::Bool(v) => ParamValue::Bool(*v),
            ParamValue::Text(s) => ParamValue::Text(s.clone()),
            ParamValue::Floats32(v) => ParamValue::Floats32(copy_plain(v)),
            ParamValue::Floats64(v) => ParamValue::Floats64(copy_plain(v)),
        }
    }
}

impl DeepCopy for (String, ParamValue) {
    open spec fn same(a: Self, b: Self) -> bool {
        b.0 == a.0 && ParamValue::same(a.1, b.1)
    }

    fn deep_copy(&self) -> (r: Self) {
        (self.0.clone(), self.1.deep_copy())
    }
}

impl DeepCopy for Params {
    open spec fn same(a: Self, b: Self) -> bool {
        match a {
            Params::Object(x) => b matches Params::Object(y) && same_seq(x@, y@),
            Params::Other(x) => b matches Params::Other(y) && ParamValue::same(x, y),
        }
    }

    fn deep_copy(&self) -> (r: Self) {
        match self {
            Params::Object(v) => Params::Object(copy_vec(v)),
            Params::Other(v) => Params::Other(v.deep_copy()),
        }
    }
}

/// Equal effect kinds hold the same content.
proof fn lemma_effect_kind_same(a: EffectKind, b: EffectKind)
    requires
        a == b,
    ensures
        EffectKind::same(a, b),
{
}

impl DeepCopy for EffectKind {
    open spec fn same(a: Self, b: Self) -> bool {
        b == a
    }

    fn deep_copy(&self) -> (r: Self) {
        let r = match self {
            EffectKind::Brightness => EffectKind::Brightness,
            EffectKind::Contrast => EffectKind::Contrast,
            EffectKind::Saturation => EffectKind::Saturation,
            EffectKind::HueRotate => EffectKind::HueRotate,
            EffectKind::Exposure => EffectKind::Exposure,
            EffectKind::ColorBalance => EffectKind::ColorBalance,
            EffectKind::ColorWheels => EffectKind::ColorWheels,
            EffectKind::ColorCurves => EffectKind::ColorCurves,
            EffectKind::Lut3D => EffectKind::Lut3D,
            EffectKind::GaussianBlur => EffectKind::GaussianBlur,
            EffectKind::Sharpen => EffectKind::Sharpen,
            EffectKind::Glow => EffectKind::Glow,
            EffectKind::ChromaKey => EffectKind::ChromaKey,
            EffectKind::LumaKey => EffectKind::LumaKey,
            EffectKind::Transform => EffectKind::Transform,
            EffectKind::Distort => EffectKind::Distort,
            EffectKind::Vignette => EffectKind::Vignette,
            EffectKind::FilmGrain => EffectKind::FilmGrain,
            EffectKind::Noise => EffectKind::Noise,
            EffectKind::TextOverlay => EffectKind::TextOverlay,
            EffectKind::Timecode => EffectKind::Timecode,
            EffectKind::Eq => EffectKind::Eq,
            EffectKind::Compressor => EffectKind::Compressor,
            EffectKind::Limiter => EffectKind::Limiter,
            EffectKind::NoiseGate => EffectKind::NoiseGate,
            EffectKind::Reverb => EffectKind::Reverb,
            EffectKind::Delay => EffectKind::Delay,
            EffectKind::PitchShift => EffectKind::PitchShift,
            EffectKind::Custom(s) => EffectKind::Custom(s.clone()),
            EffectKind::Plugin(p) => EffectKind::Plugin(*p),
        };
        proof {
            lemma_effect_kind_same(*self, r);
        }
        r
    }
}

impl DeepCopy for EffectInstance {
    open spec fn same(a: Self, b: Self) -> bool {
        b == (EffectInstance { params: b.params, ..a }) && Params::same(a.params, b.params)
    }

    fn deep_copy(&self) -> (r: Self) {
        EffectInstance {
            id: self.id,
            kind: self.kind.deep_copy(),
            enabled: self.enabled,
            params: self.params.deep_copy(),
        }
    }
}

/// Equal values hold the same content.
proof fn lemma_keyframe_property_same(a: KeyframeProperty, b: KeyframeProperty)
    requires
        a == b,
    ensures
        KeyframeProperty::same(a, b),
{
}

impl DeepCopy for KeyframeProperty {
    open spec fn same(a: Self, b: Self) -> bool {
        b == a
    }

    fn deep_copy(&self) -> (r: Self) {
        let r = {
            match self {
                KeyframeProperty::PositionX => KeyframeProperty::PositionX,
                KeyframeProperty::PositionY => KeyframeProperty::PositionY,
                KeyframeProperty::ScaleX => KeyframeProperty::ScaleX,
                KeyframeProperty::ScaleY => KeyframeProperty::ScaleY,
                KeyframeProperty::Rotation => KeyframeProperty::Rotation,
                KeyframeProperty::Opacity => KeyframeProperty::Opacity,
                KeyframeProperty::Volume => KeyframeProperty::Volume,
                KeyframeProperty::FilterParam { filter_id, param } => KeyframeProperty::FilterParam {
                    filter_id: *filter_id,
                    param: param.clone(),
                },
            }
        };
        proof {
            lemma_keyframe_property_same(*self, r);
        }
        r
    }
}

/// Equal values hold the same content.
proof fn lemma_keyframe_same(a: Keyframe, b: Keyframe)
    requires
        a == b,
    ensures
        Keyframe::same(a, b),
{
}

impl DeepCopy for Keyframe {
    open spec fn same(a: Self, b: Self) -> bool {
        b == a
    }

    fn deep_copy(&self) -> (r: Self) {
        let r = {
            Keyframe {
                id: self.id,
                at_frame: self.at_frame,
                property: self.property.deep_copy(),
                value: self.value,
                easing: self.easing,
            }
        };
        proof {
            lemma_keyframe_same(*self, r);
        }
        r
    }
}

/// Equal values hold the same content.
proof fn lemma_generator_same(a: Generator, b: Generator)
    requires
        a == b,
    ensures
        Generator::same(a, b),
{
}

impl DeepCopy for Generator {
    open spec fn same(a: Self, b: Self) -> bool {
        b == a
    }

    fn deep_copy(&self) -> (r: Self) {
        let r = {
            match self {
                Generator::Solid { color } => Generator::Solid { color: *color },
                Generator::Text { content, font_size, color } => Generator::Text {
                    content: content.clone(),
                    font_size: *font_size,
                    color: *color,
                },
                Generator::Credits { content, font_size, color, scroll_speed } => Generator::Credits {
                    content: content.clone(),
                    font_size: *font_size,
                    color: *color,
                    scroll_speed: *scroll_speed,
                },
                Generator::Custom => Generator::Custom,
            }
        };
        proof {
            lemma_generator_same(*self, r);
        }
        r
    }
}

/// Both without volume automation, or both with the same points.
pub open spec fn same_volume(a: Option<Vec<(i64, crate::num::F64Bits)>>, b: Option<Vec<(i64, crate::num::F64Bits)>>) -> bool {
    match a {
        Some(x) => b matches Some(y) && y@ == x@,
        None => b is None,
    }
}

impl DeepCopy for Clip {
    open spec fn same(a: Self, b: Self) -> bool {
        &&& b == (Clip {
            speed_curve: b.speed_curve,
            volume_keyframes: b.volume_keyframes,
            filters: b.filters,
            keyframes: b.keyframes,
            ..a
        })
        &&& b.speed_curve@ == a.speed_curve@
        &&& same_volume(a.volume_keyframes, b.volume_keyframes)
        &&& same_seq(a.filters@, b.filters@)
        &&& same_seq(a.keyframes@, b.keyframes@)
    }

    fn deep_copy(&self) -> (r: Self) {
        Clip {
            id: self.id,
            label: self.label.clone(),
            asset_id: self.asset_id,
            timeline_in: self.timeline_in,
            source_in: self.source_in,
            source_duration: self.source_duration,
            transform: self.transform,
            blend_mode: self.blend_mode,
            mask: self.mask,
            fade: self.fade,
            transition: self.transition,
            speed: self.speed,
            speed_curve: copy_plain(&self.speed_curve),
            reverse: self.reverse,
            freeze_frame: self.freeze_frame,
            frame_blending: self.frame_blending,
            spatial_conform: self.spatial_conform,
            gain_db: self.gain_db,
            volume_keyframes: match &self.volume_keyframes {
                Some(v) => Some(copy_plain(v)),
                None => None,
            },
            mute_audio: self.mute_audio,
            filters: copy_vec(&self.filters),
            keyframes: copy_vec(&self.keyframes),
            link_group_id: self.link_group_id,
            generator: match &self.generator {
                Some(g) => Some(g.deep_copy()),
                None => None,
            },
        }
    }
}

impl DeepCopy for Track {
    open spec fn same(a: Self, b: Self) -> bool {
        &&& b == (Track { clips: b.clips, effects: b.effects, ..a })
        &&& same_seq(a.clips@, b.clips@)
        &&& same_seq(a.effects@, b.effects@)
    }

    fn deep_copy(&self) -> (r: Self) {
        Track {
            id: self.id,
            index: self.index,
            name: self.name.clone(),
            kind: self.kind,
            visible: self.visible,
            locked: self.locked,
            muted: self.muted,
            solo: self.solo,
            disabled: self.disabled,
            color: self.color,
            is_primary: self.is_primary,
            gain_db: self.gain_db,
            height: self.height,
            clips: copy_vec(&self.clips),
            effects: copy_vec(&self.effects),
        }
    }
}

/// Equal values hold the same content.
proof fn lemma_marker_same(a: Marker, b: Marker)
    requires
        a == b,
    ensures
        Marker::same(a, b),
{
}

impl DeepCopy for Marker {
    open spec fn same(a: Self, b: Self) -> bool {
        b == a
    }

    fn deep_copy(&self) -> (r: Self) {
        let r = {
            Marker {
                id: self.id,
                label: self.label.clone(),
                frame: self.frame,
                color: self.color,
                notes: self.notes.clone(),
            }
        };
        proof {
            lemma_marker_same(*self, r);
        }
        r
    }
}

impl DeepCopy for SemanticClip {
    open spec fn same(a: Self, b: Self) -> bool {
        b == (SemanticClip { prompt_schema: b.prompt_schema, ..a }) && same_opt(a.prompt_schema, b.prompt_schema)
    }

    fn deep_copy(&self) -> (r: Self) {
        SemanticClip {
            id: self.id,
            label: self.label.clone(),
            semantic_type: self.semantic_type.clone(),
            start_frame: self.start_frame,
            duration_frames: self.duration_frames,
            prompt_schema: copy_opt(&self.prompt_schema),
        }
    }
}

impl DeepCopy for Timeline {
    open spec fn same(a: Self, b: Self) -> bool {
        &&& b == (Timeline {
            tracks: b.tracks,
            markers: b.markers,
            semantic_clips: b.semantic_clips,
            selected_clip_ids: b.selected_clip_ids,
            compound_contents: b.compound_contents,
            clip_track_index: b.clip_track_index,
            track_pos_index: b.track_pos_index,
            ..a
        })
        &&& b.compound_contents@ == a.compound_contents@
        &&& b.clip_track_index@ == a.clip_track_index@
        &&& b.track_pos_index@ == a.track_pos_index@
        &&& same_seq(a.tracks@, b.tracks@)
        &&& same_seq(a.markers@, b.markers@)
        &&& same_seq(a.semantic_clips@, b.semantic_clips@)
        &&& b.selected_clip_ids@ == a.selected_clip_ids@
    }

    fn deep_copy(&self) -> (r: Self) {
        Timeline {
            frame_rate: self.frame_rate,
            tracks: copy_vec(&self.tracks),
            playhead: self.playhead,
            in_point: self.in_point,
            out_point: self.out_point,
            markers: copy_vec(&self.markers),
            semantic_clips: copy_vec(&self.semantic_clips),
            selected_clip_ids: copy_plain(&self.selected_clip_ids),
            compound_contents: self.compound_contents.clone(),
            next_clip_id: self.next_clip_id,
            next_track_id: self.next_track_id,
            clip_track_index: self.clip_track_index.clone(),
            track_pos_index: self.track_pos_index.clone(),
        }
    }
}


/// Equal values hold the same content.
proof fn lemma_video_metadata_same(a: VideoMetadata, b: VideoMetadata)
    requires
        a == b,
    ensures
        VideoMetadata::same(a, b),
{
}

impl DeepCopy for VideoMetadata {
    open spec fn same(a: Self, b: Self) -> bool {
        b == a
    }

    fn deep_copy(&self) -> (r: Self) {
        let r = {
            VideoMetadata {
                width: self.width,
                height: self.height,
                codec: self.codec.clone(),
                fps: self.fps,
                bitrate_bps: self.bitrate_bps,
                has_audio: self.has_audio,
            }
        };
        proof {
            lemma_video_metadata_same(*self, r);
        }
        r
    }
}

/// Equal values hold the same content.
proof fn lemma_audio_metadata_same(a: AudioMetadata, b: AudioMetadata)
    requires
        a == b,
    ensures
        AudioMetadata::same(a, b),
{
}

impl DeepCopy for AudioMetadata {
    open spec fn same(a: Self, b: Self) -> bool {
        b == a
    }

    fn deep_copy(&self) -> (r: Self) {
        let r = {
            AudioMetadata {
                codec: self.codec.clone(),
                sample_rate: self.sample_rate,
                channels: self.channels,
                bitrate_bps: self.bitrate_bps,
            }
        };
        proof {
            lemma_audio_metadata_same(*self, r);
        }
        r
    }
}

/// Equal values hold the same content.
proof fn lemma_image_metadata_same(a: ImageMetadata, b: ImageMetadata)
    requires
        a == b,
    ensures
        ImageMetadata::same(a, b),
{
}

impl DeepCopy for ImageMetadata {
    open spec fn same(a: Self, b: Self) -> bool {
        b == a
    }

    fn deep_copy(&self) -> (r: Self) {
        let r = {
            ImageMetadata { width: self.width, height: self.height, format: self.format.clone() }
        };
        proof {
            lemma_image_metadata_same(*self, r);
        }
        r
    }
}

impl DeepCopy for AssetMetadata {
    open spec fn same(a: Self, b: Self) -> bool {
        b == (AssetMetadata { ai_labels: b.ai_labels, ..a }) && same_seq(a.ai_labels@, b.ai_labels@)
    }

    fn deep_copy(&self) -> (r: Self) {
        AssetMetadata {
            duration_frames: self.duration_frames,
            file_size_bytes: self.file_size_bytes,
            sha256: copy_opt(&self.sha256),
            video: copy_opt(&self.video),
            audio: copy_opt(&self.audio),
            image: copy_opt(&self.image),
            ai_labels: copy_vec(&self.ai_labels),
            ai_description: copy_opt(&self.ai_description),
        }
    }
}

/// Equal values hold the same content.
proof fn lemma_proxy_status_same(a: ProxyStatus, b: ProxyStatus)
    requires
        a == b,
    ensures
        ProxyStatus::same(a, b),
{
}

impl DeepCopy for ProxyStatus {
    open spec fn same(a: Self, b: Self) -> bool {
        b == a
    }

    fn deep_copy(&self) -> (r: Self) {
        let r = {
            match self {
                ProxyStatus::Pending => ProxyStatus::Pending,
                ProxyStatus::Building { progress } => ProxyStatus::Building { progress: *progress },
                ProxyStatus::Ready => ProxyStatus::Ready,
                ProxyStatus::Failed { reason } => ProxyStatus::Failed { reason: reason.clone() },
            }
        };
        proof {
            lemma_proxy_status_same(*self, r);
        }
        r
    }
}

impl DeepCopy for Asset {
    open spec fn same(a: Self, b: Self) -> bool {
        b == a.with_meta(b.meta()) && AssetMetadata::same(a.meta(), b.meta())
    }

    fn deep_copy(&self) -> (r: Self) {
        match self {
            Asset::Video(v) => Asset::Video(
                VideoAsset {
                    id: v.id,
                    path: v.path.clone(),
                    metadata: v.metadata.deep_copy(),
                    proxy_path: copy_opt(&v.proxy_path),
                    proxy_status: copy_opt(&v.proxy_status),
                    fingerprint: v.fingerprint,
                },
            ),
            Asset::Audio(v) => Asset::Audio(
                AudioAsset { id: v.id, path: v.path.clone(), metadata: v.metadata.deep_copy() },
            ),
            Asset::Image(v) => Asset::Image(
                ImageAsset {
                    id: v.id,
                    path: v.path.clone(),
                    metadata: v.metadata.deep_copy(),
                    default_duration_frames: v.default_duration_frames,
                },
            ),
            Asset::Subtitle(v) => Asset::Subtitle(
                SubtitleAsset {
                    id: v.id,
                    path: v.path.clone(),
                    metadata: v.metadata.deep_copy(),
                    language: v.language.clone(),
                },
            ),
        }
    }
}

/// Equal values hold the same content.
proof fn lemma_multicam_angle_same(a: MulticamAngle, b: MulticamAngle)
    requires
        a == b,
    ensures
        MulticamAngle::same(a, b),
{
}

impl DeepCopy for MulticamAngle {
    open spec fn same(a: Self, b: Self) -> bool {
        b == a
    }

    fn deep_copy(&self) -> (r: Self) {
        let r = {
            MulticamAngle {
                id: self.id,
                label: self.label.clone(),
                asset_id: self.asset_id,
                offset_frames: self.offset_frames,
                source_in: self.source_in,
                enabled: self.enabled,
                gain_trim_db: self.gain_trim_db,
            }
        };
        proof {
            lemma_multicam_angle_same(*self, r);
        }
        r
    }
}

impl DeepCopy for MulticamClip {
    open spec fn same(a: Self, b: Self) -> bool {
        b == (MulticamClip { angles: b.angles, ..a }) && same_seq(a.angles@, b.angles@)
    }

    fn deep_copy(&self) -> (r: Self) {
        MulticamClip {
            clip_id: self.clip_id,
            label: self.label.clone(),
            angles: copy_vec(&self.angles),
            active_angle_index: self.active_angle_index,
            sync_method: self.sync_method,
            audio_policy: self.audio_policy,
            separate_audio_clip_id: self.separate_audio_clip_id,
            timeline_in: self.timeline_in,
            duration_frames: self.duration_frames,
        }
    }
}

impl DeepCopy for PluginManifest {
    open spec fn same(a: Self, b: Self) -> bool {
        same_manifest(a, b)
    }

    fn deep_copy(&self) -> (r: Self) {
        copy_manifest(self)
    }
}

impl DeepCopy for Project {
    open spec fn same(a: Self, b: Self) -> bool {
        &&& b == (Project {
            assets: b.assets,
            timeline: b.timeline,
            multicam_clips: b.multicam_clips,
            plugins: b.plugins,
            ..a
        })
        &&& same_seq(a.assets@, b.assets@)
        &&& Timeline::same(a.timeline, b.timeline)
        &&& same_seq(a.multicam_clips@, b.multicam_clips@)
        &&& same_seq(a.plugins@, b.plugins@)
    }

    fn deep_copy(&self) -> (r: Self) {
        Project {
            id: self.id,
            name: self.name.clone(),
            version: self.version,
            canvas: self.canvas,
            frame_rate: self.frame_rate,
            sample_rate: self.sample_rate,
            audio_channels: self.audio_channels,
            assets: copy_vec(&self.assets),
            timeline: self.timeline.deep_copy(),
            created_at: self.created_at,
            updated_at: self.updated_at,
            multicam_clips: copy_vec(&self.multicam_clips),
            plugins: copy_vec(&self.plugins),
        }
    }
}

} // verus!
