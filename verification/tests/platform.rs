use rook::platform::{
    describe_platform_decoder, is_native_decoding_available, is_videotoolbox_available, pixel_format_to_yuv_format,
    yuv_format_to_pixel_format, DecoderConfig, HwAccelBackend, YuvPixFmt,
};

#[test]
fn test_decoder_config_default() {
    let config = DecoderConfig::default();
    assert!(config.hardware_acceleration);
    assert!(!config.zero_copy);
    assert!(config.preferred_format.is_none());
}

#[test]
fn test_native_decoding_availability() {
    // This should not panic
    let _available = is_native_decoding_available();
}

#[test]
fn test_videotoolbox_availability() {
    assert!(is_videotoolbox_available());
}

#[test]
fn test_pixel_format_conversion() {
    assert_eq!(pixel_format_to_yuv_format(0), YuvPixFmt::Nv12);
}

#[test]
fn test_yuv_format_conversion() {
    assert_eq!(yuv_format_to_pixel_format(YuvPixFmt::Nv12), 0);
}

#[test]
fn native_decoding_is_off_in_this_build() {
    assert!(!is_native_decoding_available());
}

#[test]
fn every_pixel_format_maps_to_nv12_and_back_to_zero() {
    assert_eq!(pixel_format_to_yuv_format(875704438), YuvPixFmt::Nv12);
    assert_eq!(yuv_format_to_pixel_format(YuvPixFmt::P010), 0);
}

#[test]
fn platform_decoder_description() {
    let d = describe_platform_decoder().unwrap();
    assert_eq!(d, "FFmpeg/libavcodec (auto: NVDEC/CUDA → VAAPI → software)");
}

#[test]
fn hw_backend_labels_and_devices() {
    assert_eq!(HwAccelBackend::Cuda.label(), "NVIDIA NVDEC (CUDA)");
    assert_eq!(HwAccelBackend::Vaapi.label(), "VA-API (Intel/AMD)");
    assert_eq!(HwAccelBackend::Software.label(), "Software (libavcodec)");
    assert_eq!(HwAccelBackend::Cuda.device_type_name(), Some("cuda"));
    assert_eq!(HwAccelBackend::Vaapi.device_type_name(), Some("vaapi"));
    assert_eq!(HwAccelBackend::Software.device_type_name(), None);
    assert_eq!(HwAccelBackend::Vaapi.device_path(true, true), Some("/dev/dri/renderD128"));
    assert_eq!(HwAccelBackend::Vaapi.device_path(false, true), Some("/dev/dri/renderD129"));
    assert_eq!(HwAccelBackend::Vaapi.device_path(false, false), None);
    assert_eq!(HwAccelBackend::Cuda.device_path(true, true), None);
}
