//! Decoder selection facts for this build: pixel formats, decoder
//! configuration, the hardware-acceleration backends and how the runtime
//! describes its decoder.  This build targets a platform without
//! VideoToolbox and without the GStreamer backend.

use vstd::prelude::*;
use vstd::string::StringExecFns;

verus! {

#[verifier::external_type_specification]
#[verifier::external_body]
pub struct ExAnyhowError(anyhow::Error);

/// YUV layouts a native decoder can hand out.
#[derive(Debug, Clone, Copy, PartialEq, Eq, Hash, Structural)]
pub enum YuvPixFmt {
    Nv12,
    P010,
}

/// Decoder configuration.
#[derive(Debug, Clone, Copy)]
pub struct DecoderConfig {
    /// Enable hardware acceleration.
    pub hardware_acceleration: bool,
    /// Preferred pixel format.
    pub preferred_format: Option<YuvPixFmt>,
    /// Enable zero-copy mode (IOSurface).
    pub zero_copy: bool,
}

impl Default for DecoderConfig {
    /// Hardware acceleration on, no preferred format, no zero-copy.
    fn default() -> (c: Self)
        ensures
            c.hardware_acceleration,
            c.preferred_format is None,
            !c.zero_copy,
    {
        DecoderConfig { hardware_acceleration: true, preferred_format: None, zero_copy: false }
    }
}

/// The description of the decoder this build uses: FFmpeg, probing GPU
/// backends when a file is opened.
pub fn describe_platform_decoder() -> (r: Result<String, anyhow::Error>)
    ensures
        r matches Ok(s) && s@ == "FFmpeg/libavcodec (auto: NVDEC/CUDA → VAAPI → software)"@,
{
    Ok(String::from_str("FFmpeg/libavcodec (auto: NVDEC/CUDA → VAAPI → software)"))
}

/// Whether a native (VideoToolbox or GStreamer) decoder is available: never
/// in this build.
pub fn is_native_decoding_available() -> (b: bool)
    ensures
        !b,
{
    false
}

/// Whether VideoToolbox reports itself available; the VideoToolbox backend
/// always does.
pub fn is_videotoolbox_available() -> (b: bool)
    ensures
        b,
{
    true
}

/// The YUV layout of a native pixel-format code: every code maps to NV12.
pub fn pixel_format_to_yuv_format(format: u32) -> (r: YuvPixFmt)
    ensures
        r == YuvPixFmt::Nv12,
{
    YuvPixFmt::Nv12
}

/// The native pixel-format code of a YUV layout: 0 for every layout.
pub fn yuv_format_to_pixel_format(format: YuvPixFmt) -> (r: u32)
    ensures
        r == 0,
{
    0
}

/// Which hardware-acceleration backend a decode session uses.
#[derive(Debug, Clone, Copy, PartialEq, Eq, Structural)]
pub enum HwAccelBackend {
    /// NVIDIA NVDEC via CUDA.
    Cuda,
    /// Intel / AMD via VA-API.
    Vaapi,
    /// No hardware acceleration.
    Software,
}

impl HwAccelBackend {
    /// Human-readable label (for HUD / settings display).
    pub fn label(&self) -> (s: &'static str)
        ensures
            s@ == (match *self {
                HwAccelBackend::Cuda => "NVIDIA NVDEC (CUDA)"@,
                HwAccelBackend::Vaapi => "VA-API (Intel/AMD)"@,
                HwAccelBackend::Software => "Software (libavcodec)"@,
            }),
    {
        match self {
            HwAccelBackend::Cuda => "NVIDIA NVDEC (CUDA)",
            HwAccelBackend::Vaapi => "VA-API (Intel/AMD)",
            HwAccelBackend::Software => "Software (libavcodec)",
        }
    }

    /// The hardware device type name to probe for (none for software).
    pub fn device_type_name(&self) -> (s: Option<&'static str>)
        ensures
            match *self {
                HwAccelBackend::Cuda => s matches Some(n) && n@ == "cuda"@,
                HwAccelBackend::Vaapi => s matches Some(n) && n@ == "vaapi"@,
                HwAccelBackend::Software => s is None,
            },
    {
        match self {
            HwAccelBackend::Cuda => Some("cuda"),
            HwAccelBackend::Vaapi => Some("vaapi"),
            HwAccelBackend::Software => None,
        }
    }

    /// The device path to open, given which DRM render nodes exist: VA-API
    /// takes the first existing of `/dev/dri/renderD128` and
    /// `/dev/dri/renderD129`; `None` means the default device.
    pub fn device_path(&self, render_d128_exists: bool, render_d129_exists: bool) -> (s: Option<&'static str>)
        ensures
            match *self {
                HwAccelBackend::Vaapi => if render_d128_exists {
                    s matches Some(p) && p@ == "/dev/dri/renderD128"@
                } else if render_d129_exists {
                    s matches Some(p) && p@ == "/dev/dri/renderD129"@
                } else {
                    s is None
                },
                _ => s is None,
            },
    {
        match self {
            HwAccelBackend::Vaapi => {
                if render_d128_exists {
                    Some("/dev/dri/renderD128")
                } else if render_d129_exists {
                    Some("/dev/dri/renderD129")
                } else {
                    None
                }
            },
            _ => None,
        }
    }
}

} // verus!
