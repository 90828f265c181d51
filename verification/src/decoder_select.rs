//! Choosing a GStreamer decoder element: the codec a stream's caps name,
//! the per-platform order of preferred decoders, and the first of them that
//! is installed.

use vstd::prelude::*;
use vstd::string::StringExecFns;
use crate::crash::starts_with;
use crate::text::{chars_of, str_eq};

verus! {

/// The codec of a video stream, as far as decoder choice cares.
#[derive(Debug, Clone, Copy, PartialEq, Eq, Structural)]
pub enum VideoCodecKind {
    H264,
    H265,
    ProRes,
    Other,
}

/// The codec named by a caps structure name.
pub open spec fn codec_for_caps(name: Seq<char>) -> VideoCodecKind {
    if name == "video/x-h264"@ {
        VideoCodecKind::H264
    } else if name == "video/x-h265"@ || name == "video/x-265"@ {
        VideoCodecKind::H265
    } else if name == "video/x-prores"@ {
        VideoCodecKind::ProRes
    } else {
        VideoCodecKind::Other
    }
}

/// The codec named by a caps structure name (see [`codec_for_caps`]).
pub fn codec_kind_for_caps(name: &str) -> (k: VideoCodecKind)
    ensures
        k == codec_for_caps(name@),
{
    if str_eq(name, "video/x-h264") {
        VideoCodecKind::H264
    } else if str_eq(name, "video/x-h265") || str_eq(name, "video/x-265") {
        VideoCodecKind::H265
    } else if str_eq(name, "video/x-prores") {
        VideoCodecKind::ProRes
    } else {
        VideoCodecKind::Other
    }
}

/// Whether `text` begins with `prefix`.
fn has_prefix(text: &str, prefix: &str) -> (b: bool)
    ensures
        b == starts_with(text@, prefix@),
{
    let v = chars_of(text);
    let p = chars_of(prefix);
    if v.len() < p.len() {
        return false;
    }
    let mut i: usize = 0;
    while i < p.len()
        invariant
            v@ == text@,
            p@ == prefix@,
            p@.len() <= v@.len(),
            0 <= i <= p@.len(),
            forall|j: int| 0 <= j < i ==> v@[j] == p@[j],
        decreases p@.len() - i,
    {
        if v[i] != p[i] {
            assert(v@.subrange(0, p@.len() as int)[i as int] != p@[i as int]);
            return false;
        }
        i = i + 1;
    }
    assert(v@.subrange(0, p@.len() as int) =~= p@);
    true
}

/// Whether a pad carries video: its caps name starts with "video/" (when
/// the pad has caps), else its own name starts with "video".
pub fn pad_is_video(caps_name: Option<&str>, pad_name: &str) -> (b: bool)
    ensures
        b == match caps_name {
            Some(c) => starts_with(c@, "video/"@),
            None => starts_with(pad_name@, "video"@),
        },
{
    match caps_name {
        Some(c) => has_prefix(c, "video/"),
        None => has_prefix(pad_name, "video"),
    }
}

/// A decoder element and what it is.
#[derive(Debug, Clone, Copy, PartialEq, Eq)]
pub struct DecoderSelection {
    pub factory_name: &'static str,
    pub description: &'static str,
    pub is_hardware: bool,
}

/// The software decoder chosen when no list is given.
pub open spec fn default_selection() -> (Seq<char>, Seq<char>, bool) {
    ("avdec_h264"@, "Software libavcodec H.264 decoder"@, false)
}

/// A selection as plain values.
pub open spec fn selection_view(s: DecoderSelection) -> (Seq<char>, Seq<char>, bool) {
    (s.factory_name@, s.description@, s.is_hardware)
}

/// `r` is what a priority list gives when `is_available` answers as it
/// did: the first entry reported installed, else the last entry, else the
/// default software decoder.
pub open spec fn selected<F: Fn(&str) -> bool>(
    r: DecoderSelection,
    priority: Seq<DecoderSelection>,
    is_available: F,
) -> bool {
    ||| exists|k: int|
        #![trigger priority[k]]
        0 <= k < priority.len() && selection_view(r) == selection_view(priority[k]) && call_ensures(
            is_available,
            (priority[k].factory_name,),
            true,
        ) && forall|j: int| 0 <= j < k ==> call_ensures(is_available, (#[trigger] priority[j].factory_name,), false)
    ||| (forall|j: int| 0 <= j < priority.len() ==> call_ensures(is_available, (#[trigger] priority[j].factory_name,), false))
        && if priority.len() > 0 {
        selection_view(r) == selection_view(priority.last())
    } else {
        selection_view(r) == default_selection()
    }
}

/// The first decoder of `priority` that `is_available` reports installed,
/// else the last one, else the default software decoder.
pub fn select_from_priority<F: Fn(&str) -> bool>(priority: &Vec<DecoderSelection>, is_available: &F) -> (r: DecoderSelection)
    requires
        forall|name: &str| call_requires(*is_available, (name,)),
    ensures
        selected(r, priority@, *is_available),
{
    let n = priority.len();
    let mut i: usize = 0;
    while i < n
        invariant
            n == priority@.len(),
            0 <= i <= n,
            forall|name: &str| call_requires(*is_available, (name,)),
            forall|j: int| 0 <= j < i ==> call_ensures(*is_available, (#[trigger] priority@[j].factory_name,), false),
        decreases n - i,
    {
        let s = priority[i];
        if is_available(s.factory_name) {
            assert(selection_view(s) == selection_view(priority@[i as int]));
            return s;
        }
        i = i + 1;
    }
    if n > 0 {
        priority[n - 1]
    } else {
        proof {
            reveal_strlit("avdec_h264");
        }
        DecoderSelection {
            factory_name: "avdec_h264",
            description: "Software libavcodec H.264 decoder",
            is_hardware: false,
        }
    }
}

/// The platform a build targets, as far as decoder choice cares.
#[derive(Debug, Clone, Copy, PartialEq, Eq, Structural)]
pub enum DecoderPlatform {
    Windows,
    Linux,
    MacOs,
    Other,
}

/// The decoders tried for `kind` on `platform`, most preferred first.
pub open spec fn priority_list(platform: DecoderPlatform, kind: VideoCodecKind) -> Seq<(Seq<char>, Seq<char>, bool)> {
    let hevc = kind == VideoCodecKind::H265;
    match platform {
        DecoderPlatform::Windows => if hevc {
            seq![("nvh265dec"@, "NVIDIA NVDEC hardware decoder (HEVC)"@, true), ("d3d11h265dec"@, "Direct3D11 DXVA2 hardware decoder (HEVC)"@, true), ("qsvh265dec"@, "Intel Quick Sync Video hardware decoder (HEVC)"@, true), ("avdec_hevc"@, "libavcodec software HEVC decoder"@, false)]
        } else {
            seq![("nvdec"@, "NVIDIA NVDEC hardware decoder (nvcodec)"@, true), ("qsvh264dec"@, "Intel Quick Sync Video hardware decoder"@, true), ("d3d11h264dec"@, "Direct3D11 DXVA2 hardware decoder"@, true), ("avdec_h264"@, "libavcodec software H.264 decoder"@, false)]
        },
        DecoderPlatform::Linux => if hevc {
            seq![("nvv4l2h265dec"@, "NVIDIA NVDEC hardware decoder (V4L2 HEVC)"@, true), ("nvv4l2decoder"@, "NVIDIA NVDEC hardware decoder (nvv4l2decoder HEVC)"@, true), ("vah265dec"@, "VA-API hardware decoder (HEVC)"@, true), ("qsvh265dec"@, "Intel Quick Sync Video hardware decoder (HEVC)"@, true), ("avdec_hevc"@, "libavcodec software HEVC decoder"@, false)]
        } else {
            seq![("nvv4l2decoder"@, "NVIDIA NVDEC hardware decoder (nvv4l2decoder)"@, true), ("vah264dec"@, "VA-API hardware decoder"@, true), ("qsvh264dec"@, "Intel Quick Sync Video hardware decoder"@, true), ("avdec_h264"@, "libavcodec software H.264 decoder"@, false)]
        },
        DecoderPlatform::MacOs => if hevc {
            seq![("vtdec_hevc"@, "VideoToolbox HEVC hardware decoder"@, true), ("avdec_hevc"@, "libavcodec software HEVC decoder"@, false), ("avdec_h264"@, "libavcodec software H.264 decoder"@, false)]
        } else {
            seq![("vtdec_h264"@, "VideoToolbox H.264 hardware decoder"@, true), ("vtdec_hw"@, "VideoToolbox hardware decoder (generic)"@, true), ("avdec_h264"@, "libavcodec software H.264 decoder"@, false)]
        },
        DecoderPlatform::Other => seq![("avdec_h264"@, "libavcodec software H.264 decoder"@, false)],
    }
}

fn sel(factory_name: &'static str, description: &'static str, is_hardware: bool) -> (s: DecoderSelection)
    ensures
        s.factory_name == factory_name,
        s.description == description,
        s.is_hardware == is_hardware,
{
    DecoderSelection { factory_name, description, is_hardware }
}

/// The decoders tried for `kind` on `platform`, most preferred first: the
/// hardware decoders of the platform, then libavcodec.  Every list ends with
/// a software decoder.
pub fn decoder_priority(platform: DecoderPlatform, kind: VideoCodecKind) -> (v: Vec<DecoderSelection>)
    ensures
        v@.map_values(|s: DecoderSelection| selection_view(s)) == priority_list(platform, kind),
{
    let hevc = kind == VideoCodecKind::H265;
    let mut v: Vec<DecoderSelection> = Vec::new();
    match platform {
        DecoderPlatform::Windows => {
            if hevc {
                v.push(sel("nvh265dec", "NVIDIA NVDEC hardware decoder (HEVC)", true));
                v.push(sel("d3d11h265dec", "Direct3D11 DXVA2 hardware decoder (HEVC)", true));
                v.push(sel("qsvh265dec", "Intel Quick Sync Video hardware decoder (HEVC)", true));
                v.push(sel("avdec_hevc", "libavcodec software HEVC decoder", false));
            } else {
                v.push(sel("nvdec", "NVIDIA NVDEC hardware decoder (nvcodec)", true));
                v.push(sel("qsvh264dec", "Intel Quick Sync Video hardware decoder", true));
                v.push(sel("d3d11h264dec", "Direct3D11 DXVA2 hardware decoder", true));
                v.push(sel("avdec_h264", "libavcodec software H.264 decoder", false));
            }
        },
        DecoderPlatform::Linux => {
            if hevc {
                v.push(sel("nvv4l2h265dec", "NVIDIA NVDEC hardware decoder (V4L2 HEVC)", true));
                v.push(sel("nvv4l2decoder", "NVIDIA NVDEC hardware decoder (nvv4l2decoder HEVC)", true));
                v.push(sel("vah265dec", "VA-API hardware decoder (HEVC)", true));
                v.push(sel("qsvh265dec", "Intel Quick Sync Video hardware decoder (HEVC)", true));
                v.push(sel("avdec_hevc", "libavcodec software HEVC decoder", false));
            } else {
                v.push(sel("nvv4l2decoder", "NVIDIA NVDEC hardware decoder (nvv4l2decoder)", true));
                v.push(sel("vah264dec", "VA-API hardware decoder", true));
                v.push(sel("qsvh264dec", "Intel Quick Sync Video hardware decoder", true));
                v.push(sel("avdec_h264", "libavcodec software H.264 decoder", false));
            }
        },
        DecoderPlatform::MacOs => {
            if hevc {
                v.push(sel("vtdec_hevc", "VideoToolbox HEVC hardware decoder", true));
                v.push(sel("avdec_hevc", "libavcodec software HEVC decoder", false));
                v.push(sel("avdec_h264", "libavcodec software H.264 decoder", false));
            } else {
                v.push(sel("vtdec_h264", "VideoToolbox H.264 hardware decoder", true));
                v.push(sel("vtdec_hw", "VideoToolbox hardware decoder (generic)", true));
                v.push(sel("avdec_h264", "libavcodec software H.264 decoder", false));
            }
        },
        DecoderPlatform::Other => {
            v.push(sel("avdec_h264", "libavcodec software H.264 decoder", false));
        },
    }
    assert(v@.map_values(|s: DecoderSelection| selection_view(s)) =~= priority_list(platform, kind));
    v
}

/// The decoder for `kind` on `platform`: the first of its priority list
/// that is installed (see [`decoder_priority`], [`select_from_priority`]).
pub fn select_decoder_factory<F: Fn(&str) -> bool>(
    platform: DecoderPlatform,
    kind: VideoCodecKind,
    is_available: &F,
) -> (r: DecoderSelection)
    requires
        forall|name: &str| call_requires(*is_available, (name,)),
    ensures
        exists|p: Seq<DecoderSelection>|
            p.map_values(|s: DecoderSelection| selection_view(s)) == priority_list(platform, kind) && #[trigger] selected(
                r,
                p,
                *is_available,
            ),
{
    let priority = decoder_priority(platform, kind);
    let r = select_from_priority(&priority, is_available);
    assert(selected(r, priority@, *is_available));
    r
}

/// "name (description, mode)", the mode being hardware acceleration or the
/// software fallback.
pub open spec fn selection_text(s: DecoderSelection) -> Seq<char> {
    s.factory_name@ + " ("@ + s.description@ + ", "@ + (if s.is_hardware {
        "hardware acceleration"@
    } else {
        "software fallback"@
    }) + ")"@
}

/// A readable description of a decoder choice (see [`selection_text`]).
pub fn describe_selection(s: &DecoderSelection) -> (t: String)
    ensures
        t@ == selection_text(*s),
{
    let mut t = String::from_str(s.factory_name);
    t.append(" (");
    t.append(s.description);
    t.append(", ");
    if s.is_hardware {
        t.append("hardware acceleration");
    } else {
        t.append("software fallback");
    }
    t.append(")");
    t
}

} // verus!
