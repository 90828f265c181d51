use rook::edl::generate_edl;
use rook::edl_read::{frame_count, parse_edl, timecode_fields};
use rook::exchange::{
    AssetInfo, AssetKind, ColorSpace, ExportConfig, ExportError, ExportFormat, Fps, ItemKind,
    RelinkResult, RelinkStrategy, Sequence, SequenceItem, SequenceTrack, TimecodeFormat,
};
use rook::exporter::{import_kind_by_extension, relink_assets, relink_relative, xml_kind, Exporter, ImportKind};
use rook::fcp7::{generate_fcp7_xml, read_fcp7xml};
use rook::fcpxml::FcpXml;
use std::path::PathBuf;

fn config(format: ExportFormat, tc: TimecodeFormat) -> ExportConfig {
    ExportConfig {
        format,
        output_path: PathBuf::from("/tmp/out"),
        project_name: "Demo".to_string(),
        sequence_name: "Main".to_string(),
        relink_strategy: RelinkStrategy::Absolute,
        timecode_format: tc,
        frame_rate: Fps::new(30, 1),
        audio_sample_rate: 48000,
        preserve_folder_structure: false,
        include_unused_media: false,
        color_space: ColorSpace::Rec709,
    }
}

fn item(id: &str, from: i64, dur: i64, kind: ItemKind) -> SequenceItem {
    SequenceItem { id: id.to_string(), from, duration_in_frames: dur, kind }
}

fn sample_sequence() -> Sequence {
    let mut s = Sequence::new("Cut 1", 1920, 1080, Fps::new(30, 1), 300);
    s.add_track(SequenceTrack {
        name: "V1".to_string(),
        items: vec![
            item("a", 0, 150, ItemKind::Video { src: "/media/beach.mov".to_string() }),
            item("b", 150, 60, ItemKind::Generated),
            item("c", 210, 90, ItemKind::Image { src: "/media/logo.png".to_string() }),
        ],
    });
    s.add_track(SequenceTrack {
        name: "A1".to_string(),
        items: vec![item("d", 30, 120, ItemKind::Audio { src: "/media/music.wav".to_string() })],
    });
    s
}

fn asset(path: &str, channels: Option<u32>) -> AssetInfo {
    AssetInfo {
        id: "x".to_string(),
        path: path.to_string(),
        relative_path: None,
        kind: AssetKind::Video,
        width: None,
        height: None,
        duration_frames: None,
        fps: None,
        audio_channels: channels,
        sample_rate: None,
        timecode: None,
        color_space: None,
        file_size: None,
        hash: None,
    }
}

fn seconds(n: i64, d: u32) -> String {
    format!("{}s", n as f64 / d as f64)
}

fn frames_only(frames: i64, _fps: Fps, _fmt: TimecodeFormat) -> String {
    frames.to_string()
}

#[test]
fn fcpxml_describes_media_items() {
    let seq = sample_sequence();
    let assets = vec![asset("/media/music.wav", Some(2)), asset("/media/beach.mov", Some(6))];
    let cfg = config(ExportFormat::FcpXml1_9, TimecodeFormat::NonDropFrame);
    let x = FcpXml::from_sequence(&seq, &assets, &cfg, &seconds);
    assert_eq!(x.version, "1.9");
    assert_eq!(x.project.name, "Demo");
    assert_eq!(x.project.sequence.name, "Cut 1");
    assert_eq!(x.project.sequence.duration, "10s");
    let f = &x.project.sequence.format;
    assert_eq!(f.id, "r1");
    assert_eq!(f.name, "1080p30");
    assert_eq!(f.frame_duration, format!("{}s", 1.0f64 / 30.0));
    assert_eq!(f.color_space, "1-1-1 (Rec. 709)");
    let clips = &x.project.sequence.spine.clips;
    assert_eq!(clips.len(), 3);
    assert_eq!(clips[0].name, "beach");
    assert_eq!(clips[0].duration, "5s");
    assert_eq!(clips[0].start, "0s");
    assert_eq!(clips[1].name, "logo");
    assert_eq!(clips[1].start, "7s");
    assert_eq!(clips[2].name, "music");
    assert_eq!(clips[2].start, "1s");
    assert_eq!(clips[2].format, None);
    assert_eq!(x.project.events.len(), 1);
    let res = &x.project.events[0].resources;
    assert_eq!(res.assets.len(), 3);
    assert!(res.assets[0].has_video && res.assets[0].has_audio);
    assert_eq!(res.assets[0].audio_channels, Some(6));
    assert!(res.assets[1].has_video && !res.assets[1].has_audio);
    assert_eq!(res.assets[1].audio_channels, None);
    assert!(!res.assets[2].has_video && res.assets[2].has_audio);
    assert_eq!(res.assets[2].audio_channels, Some(2));
    for k in 0..3 {
        assert_eq!(clips[k].ref_id, res.assets[k].id);
        assert_eq!(res.assets[k].id, res.assets[k].uid);
    }
    assert_eq!(res.formats.len(), 1);
    assert!(res.media.is_empty());
}

#[test]
fn fcpxml_color_space_labels() {
    let seq = sample_sequence();
    let mut cfg = config(ExportFormat::FcpXml1_10, TimecodeFormat::NonDropFrame);
    cfg.color_space = ColorSpace::DciP3;
    let x = FcpXml::from_sequence(&seq, &Vec::new(), &cfg, &seconds);
    assert_eq!(x.version, "1.10");
    assert_eq!(x.project.sequence.format.color_space, "5-4-6 (DCI-P3 D65)");
}

#[test]
fn fcpxml_text_is_written_in_order() {
    let mut seq = Sequence::new("S & T", 1280, 720, Fps::new(25, 1), 50);
    seq.add_track(SequenceTrack {
        name: "V1".to_string(),
        items: vec![item("a", 0, 50, ItemKind::Video { src: "clip.mov".to_string() })],
    });
    let cfg = config(ExportFormat::FcpXml1_10, TimecodeFormat::NonDropFrame);
    let x = FcpXml::from_sequence(&seq, &Vec::new(), &cfg, &seconds);
    let text = x.to_xml().unwrap();
    assert!(text.starts_with("<?xml version=\"1.0\" encoding=\"UTF-8\"?><fcpxml version=\"1.10\"><project name=\"Demo\""));
    assert!(text.contains("<sequence name=\"S &amp; T\""));
    assert!(text.contains("<spine><clip name=\"clip\""));
    assert!(text.contains("duration=\"2s\" start=\"0s\" offset=\"0s\""));
    assert!(text.contains("</clip></spine></sequence><event name=\"Demo\""));
    assert!(text.contains("<resources><format id=\"r1\" name=\"720p25\" frameDuration=\"0.04s\" width=\"1280\" height=\"720\" colorSpace=\"1-1-1 (Rec. 709)\"/>"));
    assert!(text.contains("src=\"clip.mov\" start=\"0s\" duration=\"2s\" hasVideo=\"1\" hasAudio=\"1\" format=\"r1\"/>"));
    assert!(text.ends_with("</resources></event></project></fcpxml>"));
}

#[test]
fn fcpxml_reads_back_into_tracks() {
    let seq = sample_sequence();
    let cfg = config(ExportFormat::FcpXml1_10, TimecodeFormat::NonDropFrame);
    let assets = vec![asset("/media/music.wav", Some(2))];
    let x = FcpXml::from_sequence(&seq, &assets, &cfg, &seconds);
    let (back, infos) = x.to_sequence(&cfg);
    assert_eq!(back.name, "Cut 1");
    assert_eq!(back.fps, Fps::new(30, 1));
    assert_eq!(back.duration_in_frames, 0);
    assert_eq!(back.tracks.len(), 2);
    assert_eq!(back.tracks[0].name, "V1");
    assert_eq!(back.tracks[0].items.len(), 2);
    assert_eq!(back.tracks[1].name, "A1");
    assert_eq!(back.tracks[1].items.len(), 1);
    assert_eq!(back.tracks[0].items[0].duration_in_frames, 150);
    assert_eq!(back.tracks[0].items[0].from, 0);
    assert!(matches!(&back.tracks[1].items[0].kind, ItemKind::Audio { src } if src == "/media/music.wav"));
    assert_eq!(infos.len(), 3);
    assert_eq!(infos[0].kind, AssetKind::Video);
    assert_eq!(infos[2].kind, AssetKind::Audio);
    assert_eq!(infos[2].audio_channels, Some(2));
    assert_eq!(infos[0].width, Some(1920));
    assert_eq!(infos[0].color_space, Some(ColorSpace::Rec709));
}

#[test]
fn fcpxml_reader_gives_empty_document() {
    let x = FcpXml::from_xml("<fcpxml version=\"1.10\"><project/></fcpxml>");
    assert_eq!(x.version, "1.10");
    assert_eq!(x.project.name, "Imported Project");
    assert_eq!(x.project.sequence.format.name, "1080p30");
    assert!(x.project.sequence.spine.clips.is_empty());
    let cfg = config(ExportFormat::FcpXml1_10, TimecodeFormat::NonDropFrame);
    let (s, infos) = x.to_sequence(&cfg);
    assert!(s.tracks.is_empty());
    assert!(infos.is_empty());
    assert_eq!(s.width, 1920);
}

#[test]
fn edl_lists_video_items() {
    let seq = sample_sequence();
    let cfg = config(ExportFormat::Edl, TimecodeFormat::Frames);
    let text = generate_edl(&seq, &Vec::new(), &cfg, &frames_only);
    assert_eq!(text, "TITLE: Cut 1\nFCM: NON-DROP FRAME\n\n001 BEACH V C 0 150 0 150\n");
}

#[test]
fn edl_reels_and_numbering() {
    let mut seq = Sequence::new("Reel test", 1920, 1080, Fps::new(24, 1), 0);
    seq.add_track(SequenceTrack { name: "V1".to_string(), items: Vec::new() });
    seq.add_track(SequenceTrack {
        name: "V2".to_string(),
        items: vec![
            item("a", 10, 5, ItemKind::Video { src: "dir/shot.a.mov".to_string() }),
            item("b", 20, 5, ItemKind::Video { src: "/".to_string() }),
        ],
    });
    let cfg = config(ExportFormat::Edl, TimecodeFormat::Frames);
    let text = generate_edl(&seq, &Vec::new(), &cfg, &frames_only);
    assert_eq!(
        text,
        "TITLE: Reel test\nFCM: NON-DROP FRAME\n\n001 SHOT.A A C 0 5 10 15\n002 UNKNOWN A C 0 5 20 25\n"
    );
}

#[test]
fn edl_import_builds_tracks() {
    let content = "TITLE: Test\nFCM: NON-DROP FRAME\n\n001 CLIPA V C 00:00:00:00 00:00:05:00 00:00:01:00 00:00:06:00\r\n002 Music A C 00:00:00:00 00:00:02:00 00:00:00:10 00:00:02:10\n003 short line\n";
    let cfg = config(ExportFormat::Edl, TimecodeFormat::NonDropFrame);
    let (seq, assets) = parse_edl(content, &cfg).unwrap();
    assert_eq!(seq.name, "Imported EDL");
    assert_eq!(seq.fps, Fps::new(30, 1));
    assert_eq!(seq.tracks.len(), 2);
    assert_eq!(seq.tracks[0].name, "V1");
    assert_eq!(seq.tracks[1].name, "A1");
    let v = &seq.tracks[0].items[0];
    assert_eq!(v.from, 30);
    assert_eq!(v.duration_in_frames, 150);
    assert!(matches!(&v.kind, ItemKind::Video { src } if src == "clipa.mov"));
    let a = &seq.tracks[1].items[0];
    assert_eq!(a.from, 10);
    assert_eq!(a.duration_in_frames, 60);
    assert!(matches!(&a.kind, ItemKind::Audio { src } if src == "music.mov"));
    assert_eq!(seq.duration_in_frames, 180);
    assert_eq!(assets.len(), 2);
    assert_eq!(assets[0].path, "clipa.mov");
    assert_eq!(assets[0].kind, AssetKind::Video);
    assert_eq!(assets[0].audio_channels, None);
    assert_eq!(assets[1].kind, AssetKind::Audio);
    assert_eq!(assets[1].audio_channels, Some(2));
    assert_eq!(assets[1].sample_rate, Some(48000));
    assert_eq!(assets[1].duration_frames, Some(60));
    assert_eq!(assets[0].width, Some(1920));
}

#[test]
fn edl_import_frame_counts() {
    let content = "001 A V C 0 10 -5 7\n002 B X C 0 10 +3 4";
    let cfg = config(ExportFormat::Edl, TimecodeFormat::Frames);
    let (seq, assets) = parse_edl(content, &cfg).unwrap();
    assert_eq!(seq.tracks.len(), 2);
    assert_eq!(seq.tracks[0].items[0].from, -5);
    assert_eq!(seq.tracks[0].items[0].duration_in_frames, 12);
    assert_eq!(seq.tracks[1].items[0].from, 3);
    assert_eq!(seq.duration_in_frames, 7);
    assert_eq!(assets[1].kind, AssetKind::Audio);
    assert_eq!(assets[1].audio_channels, None);
}

#[test]
fn edl_import_rejects_bad_timecode() {
    let content = "001 A V C 00:00:00:00 00:00:01:00 00:00:01 00:00:02:00\n002 B V C x x bad also\n";
    let cfg = config(ExportFormat::Edl, TimecodeFormat::NonDropFrame);
    match parse_edl(content, &cfg) {
        Err(ExportError::InvalidTimecode(t)) => assert_eq!(t, "00:00:01"),
        other => panic!("unexpected: {:?}", other.map(|_| ())),
    }
    let cfg = config(ExportFormat::Edl, TimecodeFormat::Frames);
    match parse_edl("1 A V C 0 0 5 x9\n", &cfg) {
        Err(ExportError::InvalidTimecode(t)) => assert_eq!(t, "x9"),
        other => panic!("unexpected: {:?}", other.map(|_| ())),
    }
}

#[test]
fn edl_import_of_headers_only_is_empty() {
    let cfg = config(ExportFormat::Edl, TimecodeFormat::NonDropFrame);
    let (seq, assets) = parse_edl("TITLE: x\nFCM: NON-DROP FRAME\n\n   \n", &cfg).unwrap();
    assert!(seq.tracks.is_empty());
    assert!(assets.is_empty());
    assert_eq!(seq.duration_in_frames, 0);
}

#[test]
fn timecode_text() {
    assert_eq!(timecode_fields("01:02:03:04"), Some((1, 2, 3, 4)));
    assert_eq!(timecode_fields("01:02:03;04"), Some((1, 2, 3, 4)));
    assert_eq!(timecode_fields("01:02:03"), None);
    assert_eq!(timecode_fields("01:02:03:04:05"), None);
    assert_eq!(timecode_fields("01::03:04"), None);
    assert_eq!(frame_count("-12"), Some(-12));
    assert_eq!(frame_count("+7"), Some(7));
    assert_eq!(frame_count("-9223372036854775808"), Some(i64::MIN));
    assert_eq!(frame_count("9223372036854775808"), None);
    assert_eq!(frame_count("-"), None);
    assert_eq!(frame_count(""), None);
}

#[test]
fn fcp7_skeleton() {
    let seq = Sequence::new("Seq", 1280, 720, Fps::new(25, 1), -3);
    let cfg = config(ExportFormat::Fcp7Xml, TimecodeFormat::NonDropFrame);
    let xml = generate_fcp7_xml(&seq, &Vec::new(), &cfg);
    assert!(xml.starts_with("<?xml version=\"1.0\" encoding=\"UTF-8\"?>\n<!DOCTYPE xmeml>\n<xmeml version=\"5\">\n    <project>\n        <name>Demo</name>"));
    assert!(xml.contains("<name>Seq</name>\n                <duration>-3</duration>"));
    assert_eq!(xml.matches("<timebase>25</timebase>").count(), 3);
    assert!(xml.contains("<width>1280</width>\n                                <height>720</height>"));
    assert!(xml.contains("<samplerate>48000</samplerate>"));
    assert!(xml.ends_with("</xmeml>"));
    let (s, a) = read_fcp7xml(&xml, &cfg);
    assert_eq!(s.name, "Imported FCP7 Sequence");
    assert_eq!(s.fps, Fps::new(30, 1));
    assert!(a.is_empty());
}

#[test]
fn import_kinds() {
    assert_eq!(import_kind_by_extension(Some("FCPXML")).unwrap(), ImportKind::FcpXml);
    assert_eq!(import_kind_by_extension(Some("xml")).unwrap(), ImportKind::Xml);
    assert_eq!(import_kind_by_extension(Some("Edl")).unwrap(), ImportKind::Edl);
    assert_eq!(import_kind_by_extension(Some("json")).unwrap(), ImportKind::Json);
    match import_kind_by_extension(Some("mov")) {
        Err(ExportError::UnsupportedFormat(m)) => assert_eq!(m, "Unsupported format: mov"),
        _ => panic!("expected an error"),
    }
    match import_kind_by_extension(None) {
        Err(ExportError::UnsupportedFormat(m)) => assert_eq!(m, "Unknown file extension"),
        _ => panic!("expected an error"),
    }
    assert_eq!(xml_kind("<!DOCTYPE xmeml><xmeml/>").unwrap(), ImportKind::Fcp7Xml);
    assert_eq!(xml_kind("<fcpxml version=\"1.10\"/>").unwrap(), ImportKind::FcpXml);
    match xml_kind("<html/>") {
        Err(ExportError::UnsupportedFormat(m)) => assert_eq!(m, "Unknown XML format"),
        _ => panic!("expected an error"),
    }
}

#[test]
fn exporter_writes_each_format() {
    let seq = sample_sequence();
    let e = Exporter::new(config(ExportFormat::AvidEdl, TimecodeFormat::Frames));
    let t = e.export_text(&seq, &Vec::new(), &seconds, &frames_only).unwrap().unwrap();
    assert!(t.starts_with("TITLE: Cut 1\n"));
    let e = Exporter::new(config(ExportFormat::Json, TimecodeFormat::Frames));
    assert!(e.export_text(&seq, &Vec::new(), &seconds, &frames_only).unwrap().is_none());
    let e = Exporter::new(config(ExportFormat::Fcp7Xml, TimecodeFormat::Frames));
    let t = e.export_text(&seq, &Vec::new(), &seconds, &frames_only).unwrap().unwrap();
    assert!(t.contains("<xmeml version=\"5\">"));
    let e = Exporter::new(config(ExportFormat::FcpXml1_9, TimecodeFormat::Frames));
    let t = e.export_text(&seq, &Vec::new(), &seconds, &frames_only).unwrap().unwrap();
    assert!(t.contains("<fcpxml version=\"1.9\">"));
}

#[test]
fn relinking_paths() {
    let mut a = asset("/old/a.mov", None);
    assert!(matches!(relink_relative(&mut a), RelinkResult::Failed(m) if m == "No relative path available"));
    assert_eq!(a.path, "/old/a.mov");
    a.relative_path = Some("media/a.mov".to_string());
    assert!(matches!(relink_relative(&mut a), RelinkResult::Relinked(p) if p == "media/a.mov"));
    assert_eq!(a.path, "media/a.mov");

    let mut assets = vec![asset("/x/one.mov", None), asset("/x/two.mov", None)];
    let found = |a: &AssetInfo| -> Result<RelinkResult, ExportError> {
        if a.path.ends_with("one.mov") {
            Ok(RelinkResult::Relinked("/y/one.mov".to_string()))
        } else {
            Ok(RelinkResult::Failed("File not found".to_string()))
        }
    };
    let results = relink_assets(&mut assets, RelinkStrategy::Heuristic, &found).unwrap();
    assert_eq!(results.len(), 2);
    assert_eq!(assets[0].path, "/y/one.mov");
    assert_eq!(assets[1].path, "/x/two.mov");
    let results = relink_assets(&mut assets, RelinkStrategy::Copy, &found).unwrap();
    assert!(results.iter().all(|r| matches!(r, RelinkResult::Unchanged)));
    let failing = |_: &AssetInfo| -> Result<RelinkResult, ExportError> {
        Err(ExportError::RelinkingFailed("Invalid asset path".to_string()))
    };
    assert!(matches!(
        relink_assets(&mut assets, RelinkStrategy::Heuristic, &failing),
        Err(ExportError::RelinkingFailed(_))
    ));
}

fn has_random_uuid_form(s: &str) -> bool {
    let c: Vec<char> = s.chars().collect();
    c.len() == 36
        && [8, 13, 18, 23].iter().all(|&i| c[i] == '-')
        && c[14] == '4'
        && matches!(c[19], '8' | '9' | 'a' | 'b')
        && c.iter().enumerate().all(|(i, ch)| [8, 13, 18, 23].contains(&i) || ch.is_ascii_digit() || ('a'..='f').contains(ch))
}

#[test]
fn imported_identifiers_are_random_uuids() {
    let x = FcpXml::from_xml("<fcpxml/>");
    assert!(has_random_uuid_form(&x.project.uid));
    assert!(has_random_uuid_form(&x.project.sequence.uid));
    assert_ne!(x.project.uid, x.project.sequence.uid);
    let cfg = config(ExportFormat::Edl, TimecodeFormat::Frames);
    let (seq, assets) = parse_edl("001 A V C 0 10 0 10\n", &cfg).unwrap();
    assert!(has_random_uuid_form(&seq.tracks[0].items[0].id));
    assert!(has_random_uuid_form(&assets[0].id));
}

#[test]
fn fcpxml_attribute_values_are_escaped() {
    let mut x = FcpXml::from_xml("<fcpxml/>");
    x.project.name = "a<b>'c\"&".to_string();
    let text = x.to_xml().unwrap();
    assert!(text.contains("<project name=\"a&lt;b&gt;&apos;c&quot;&amp;\" uid=\""));
    assert!(text.contains("<spine></spine></sequence></project></fcpxml>"));
}
