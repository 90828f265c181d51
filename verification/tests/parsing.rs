use rook::jobs::{parse_job_kind, JobKind};
use rook::media::{parse_rate, ExportPreset};
use rook::time::Rational;

#[test]
fn job_kind_names() {
    assert_eq!(parse_job_kind("waveform"), Some(JobKind::Waveform));
    assert_eq!(parse_job_kind("thumbs"), Some(JobKind::Thumbnails));
    assert_eq!(parse_job_kind("thumbnail"), Some(JobKind::Thumbnails));
    assert_eq!(parse_job_kind("proxy"), Some(JobKind::Proxy));
    assert_eq!(parse_job_kind("seekidx"), Some(JobKind::SeekIndex));
    assert_eq!(parse_job_kind("seek_index"), Some(JobKind::SeekIndex));
    assert_eq!(parse_job_kind("Proxy"), None);
    assert_eq!(parse_job_kind(""), None);
}

#[test]
fn frame_rates() {
    assert_eq!(parse_rate("30000/1001"), Some((30000, 1001)));
    assert_eq!(parse_rate(" 25 "), Some((25, 1)));
    assert_eq!(parse_rate("24/1"), Some((24, 1)));
    assert_eq!(parse_rate("0/0"), None);
    assert_eq!(parse_rate("0"), None);
    assert_eq!(parse_rate(""), None);
    assert_eq!(parse_rate("30/0"), None);
    assert_eq!(parse_rate("abc"), None);
    assert_eq!(parse_rate("4294967296"), None);
}

#[test]
fn export_presets() {
    let p = ExportPreset::h264_1080p();
    assert_eq!(p.name, "H.264 1080p");
    assert_eq!(p.codec, "libx264");
    assert_eq!(p.container, "mp4");
    let p = ExportPreset::h264_720p();
    assert_eq!(p.name, "H.264 720p");
    let p = ExportPreset::av1_1080p();
    assert_eq!(p.codec, "libsvtav1");
    assert_eq!(p.fps, Some((30, 1)));
    assert_eq!(p.additional_args, vec!["-crf".to_string(), "28".to_string()]);
}

#[test]
fn standard_rates() {
    let r = Rational::fps_24();
    assert_eq!((r.num, r.den), (24, 1));
    let n = Rational::ntsc();
    assert_eq!((n.num, n.den), (30000, 1001));
}
