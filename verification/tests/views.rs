use rook::asset::{Asset, AssetMetadata, VideoAsset};
use rook::canvas::Canvas;
use rook::clip::{BlendMode, Clip, Generator};
use rook::num::F32Bits;
use rook::crash::{crash_file_name, is_crash_file, is_crash_report_file, newest_report, text_ends_with, text_starts_with};
use rook::ids::{AssetId, ClipId, TrackId};
use rook::ipc::track_kind_from_name;
use rook::project::Project;
use rook::time::Rational;
use rook::track::{Track, TrackKind};
use rook::transform::Transform;
use rook::marker::Marker;
use rook::views::{link_groups, timeline_layout};

fn clip(id: u64, asset: AssetId, at: i64, len: i64, group: Option<u64>) -> Clip {
    Clip {
        id: ClipId::from_u64(id),
        label: format!("c{id}"),
        asset_id: asset,
        timeline_in: at,
        source_in: 0,
        source_duration: len,
        transform: Transform::default(),
        blend_mode: BlendMode::default(),
        mask: None,
        fade: None,
        transition: None,
        speed: Rational::new(1, 1),
        speed_curve: Vec::new(),
        reverse: false,
        freeze_frame: None,
        frame_blending: false,
        spatial_conform: None,
        gain_db: None,
        volume_keyframes: None,
        mute_audio: false,
        filters: Vec::new(),
        keyframes: Vec::new(),
        link_group_id: group,
        generator: None,
    }
}

fn project_with_clips() -> (Project, AssetId) {
    let mut p = Project::new("Views".to_string(), Canvas::hd_720p(), Rational::fps_30());
    let asset = Asset::Video(VideoAsset {
        id: AssetId::from_u64(9),
        path: "/m/x.mov".to_string(),
        metadata: AssetMetadata { duration_frames: Some(900), ..AssetMetadata::default() },
        proxy_path: None,
        proxy_status: None,
        fingerprint: None,
    });
    let a = asset.id();
    p.add_asset(asset);
    let mut v = Track::new(TrackKind::Video, "V1".to_string(), 0);
    v.id = TrackId::from_u64(100);
    v.clips = vec![clip(1, a, 0, 10, Some(5)), clip(2, a, 10, 10, None), clip(3, a, 20, 10, Some(6))];
    let mut au = Track::new(TrackKind::Audio, "A1".to_string(), 0);
    au.id = TrackId::from_u64(200);
    au.clips = vec![clip(4, a, 0, 10, Some(5)), clip(5, a, 20, 10, Some(6))];
    p.timeline.add_track(v);
    p.timeline.add_track(au);
    p.timeline.rebuild_index();
    (p, a)
}

#[test]
fn link_groups_in_order_of_first_appearance() {
    let (p, _) = project_with_clips();
    let groups = link_groups(&p);
    assert_eq!(groups.len(), 2);
    assert_eq!(groups[0].group_id, 5);
    assert_eq!(groups[0].clip_ids, vec!["1".to_string(), "4".to_string()]);
    assert_eq!(groups[1].group_id, 6);
    assert_eq!(groups[1].clip_ids, vec!["3".to_string(), "5".to_string()]);
}

#[test]
fn project_snapshot_inlines_media() {
    let (p, a) = project_with_clips();
    let s = p.to_snapshot();
    assert_eq!(s.name, "Views");
    assert_eq!(s.duration_frames, 30);
    assert_eq!(s.tracks.len(), 2);
    // every track snapshot lists the views of its own clips
    assert_eq!(s.tracks[0].clips.len(), 3);
    assert_eq!(s.tracks[1].clips.len(), 2);
    let first = &s.tracks[0].clips[0];
    assert_eq!(first.clip_id, ClipId::from_u64(1));
    assert_eq!(first.file_path, "/m/x.mov");
    assert_eq!(first.media_duration_frames, 900);
    assert_eq!(first.track_id, TrackId::from_u64(100));
    assert_eq!(s.tracks[1].clips[0].track_id, TrackId::from_u64(200));
    assert!(s.tracks[0].clips.iter().all(|v| v.track_id == TrackId::from_u64(100)));
    assert_eq!(s.assets.len(), 1);
    assert_eq!(s.assets[0].id(), a);
    assert!(s.proxy_dir.is_empty());
}

#[test]
fn crash_file_names() {
    assert!(is_crash_file("crash-123.json"));
    assert!(is_crash_file("crash-"));
    assert!(!is_crash_file("crash"));
    assert!(is_crash_report_file("crash-1.json"));
    assert!(!is_crash_report_file("crash-1.txt"));
    assert!(!is_crash_report_file("old-crash-1.json"));
    assert_eq!(crash_file_name("1700000000"), "crash-1700000000.json");
    assert!(text_starts_with("abc", ""));
    assert!(text_ends_with("abc", "bc"));
    assert!(!text_ends_with("c", "bc"));
}

#[test]
fn newest_crash_report() {
    assert_eq!(newest_report(&vec![]), None);
    assert_eq!(newest_report(&vec![5, 9, 2]), Some(1));
    assert_eq!(newest_report(&vec![7, 7]), Some(0));
}

#[test]
fn track_kind_names() {
    assert_eq!(track_kind_from_name("audio"), TrackKind::Audio);
    assert_eq!(track_kind_from_name("text"), TrackKind::Text);
    assert_eq!(track_kind_from_name("effect"), TrackKind::Effect);
    assert_eq!(track_kind_from_name("video"), TrackKind::Video);
    assert_eq!(track_kind_from_name("Audio"), TrackKind::Video);
}

#[test]
fn mutable_lookups_change_in_place() {
    let (mut p, a) = project_with_clips();
    p.timeline.track_mut(TrackId::from_u64(200)).unwrap().name = "Dialog".to_string();
    assert_eq!(p.timeline.tracks[1].name, "Dialog");
    assert!(p.timeline.track_mut(TrackId::from_u64(7)).is_none());
    p.timeline.clip_mut(ClipId::from_u64(3)).unwrap().mute_audio = true;
    assert!(p.timeline.tracks[0].clips[2].mute_audio);
    assert!(p.timeline.clip_mut(ClipId::from_u64(77)).is_none());
    p.timeline.tracks[1].clip_mut(ClipId::from_u64(5)).unwrap().timeline_in = 25;
    assert_eq!(p.timeline.tracks[1].clips[1].timeline_in, 25);
    p.asset_mut(a).unwrap().set_path("/n/x.mov".to_string());
    assert_eq!(p.asset(a).unwrap().path(), "/n/x.mov");
    p.asset_mut(a).unwrap().metadata_mut().ai_description = Some("shore".to_string());
    assert_eq!(p.assets[0].metadata().ai_description.as_deref(), Some("shore"));
    assert!(p.asset_mut(AssetId::from_u64(1)).is_none());
    assert!(p.multicam_for_clip_mut(ClipId::from_u64(1)).is_none());
}

#[test]
fn filename_stems() {
    let stem = |p: &str| {
        Asset::Video(VideoAsset {
            id: AssetId::nil(),
            path: p.to_string(),
            metadata: AssetMetadata::default(),
            proxy_path: None,
            proxy_status: None,
            fingerprint: None,
        })
        .filename_stem()
        .to_string()
    };
    assert_eq!(stem("/media/clip.mov"), "clip");
    assert_eq!(stem("/media/a.tar.gz"), "a.tar");
    assert_eq!(stem("/media/.hidden"), ".hidden");
    assert_eq!(stem("noext"), "noext");
}

fn text_gen(content: &str) -> Generator {
    Generator::Text { content: content.to_string(), font_size: F32Bits(0), color: [F32Bits(0); 4] }
}

fn credits_gen(content: &str) -> Generator {
    Generator::Credits { content: content.to_string(), font_size: F32Bits(0), color: [F32Bits(0); 4], scroll_speed: F32Bits(0) }
}

#[test]
fn generator_labels() {
    assert_eq!(Generator::Solid { color: [F32Bits(0); 4] }.label(), "Color");
    assert_eq!(Generator::Custom.label(), "Generator");
    assert_eq!(text_gen("  Hello World \n").label(), "Hello World");
    assert_eq!(text_gen("abcdefghijklmnopqrstuvwxyz").label(), "abcdefghijklmnopqrst");
    assert_eq!(credits_gen("Directed by Someone\r\nStarring").label(), "Directed by Someone");
    assert_eq!(credits_gen("A very long first line of credits\nrest").label(), "A very long first li");
    assert_eq!(credits_gen("").label(), "Credits");
    assert_eq!(credits_gen("\nsecond").label(), "");
    // Twenty bytes of two-byte characters, and a cut that would fall inside one.
    assert_eq!(text_gen("éééééééééééé").label(), "éééééééééé");
    assert_eq!(text_gen("aéééééééééé").label(), "aééééééééé");
}

#[test]
fn timeline_layout_in_frames() {
    let (mut p, a) = project_with_clips();
    p.timeline.markers.push(Marker::new("start".to_string(), 0));
    p.timeline.markers.push(Marker::new("end".to_string(), 25));
    let l = timeline_layout(&p);
    assert_eq!(l.duration_frames, 30);
    assert_eq!(l.v1.len(), 3);
    assert_eq!(l.v1[1].start_frame, 10);
    assert_eq!(l.v1[1].duration_frames, 10);
    assert_eq!(l.v1[1].file_path.as_deref(), Some("/m/x.mov"));
    assert_eq!(l.v1[1].media_duration_frames, Some(900));
    assert_eq!(l.video_tracks.len(), 1);
    assert_eq!(l.audio_tracks.len(), 1);
    assert_eq!(l.audio_tracks[0].name, "A1");
    assert_eq!(l.audio_tracks[0].clips.len(), 2);
    assert_eq!(l.audio_tracks[0].clips[1].clip_id, ClipId::from_u64(5));
    assert_eq!(l.markers.len(), 2);
    assert_eq!(l.markers[1].label, "end");
    assert_eq!(l.markers[1].frame, 25);
    let _ = a;
}

#[test]
fn timeline_layout_without_leading_video_track_has_no_v1() {
    let mut p = Project::new("L".to_string(), Canvas::hd_720p(), Rational::fps_30());
    p.add_audio_track("A1".to_string());
    p.add_video_track("V1".to_string());
    p.add_text_track("T1".to_string());
    let l = timeline_layout(&p);
    assert_eq!(l.duration_frames, 0);
    assert!(l.v1.is_empty());
    assert_eq!(l.video_tracks.len(), 1);
    assert_eq!(l.audio_tracks.len(), 1);
}
