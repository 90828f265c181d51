use rook::fits::command_fits;
use rook::time::TimeRange;
use rook::apply::EngineError;
use rook::asset::{Asset, AssetMetadata, AudioAsset, VideoAsset, VideoMetadata};
use rook::canvas::Canvas;
use rook::commands::EditCommand;
use rook::engine::{batch_label_of, Engine};
use rook::text::decimal_string;
use rook::ids::{AssetId, ClipId, TrackId};
use rook::num::F64Bits;
use rook::project::Project;
use rook::resolve::layers_at;
use rook::time::Rational;
use rook::track::TrackKind;

/// Identifiers are the high half of a time-ordered UUID, so two made within
/// the same millisecond can coincide; wait for the clock to move on.
fn tick() {
    let t = std::time::Instant::now();
    while t.elapsed() < std::time::Duration::from_millis(2) {}
}

fn engine() -> Engine {
    Engine::new("Test".to_string(), Canvas::hd_1080p(), Rational::fps_24())
}

fn video_asset(path: &str) -> Asset {
    Asset::Video(VideoAsset {
        id: AssetId::next(),
        path: path.to_string(),
        metadata: AssetMetadata::default(),
        proxy_path: None,
        proxy_status: None,
        fingerprint: None,
    })
}

fn add_track(e: &mut Engine, kind: TrackKind, name: &str) -> TrackId {
    tick();
    e.apply(EditCommand::AddTrack { kind, name: name.to_string(), index: None }, &Vec::new()).unwrap();
    e.project().timeline.tracks.last().unwrap().id
}

fn insert(e: &mut Engine, asset: AssetId, track: TrackId, position: i64, len: i64) -> Result<(), EngineError> {
    tick();
    e.apply(
        EditCommand::InsertClip {
            asset_id: asset,
            track_id: track,
            position,
            source_in: 0,
            source_out: len,
            link_group_id: None,
        },
        &Vec::new(),
    )
}

#[test]
fn new_engine_is_empty() {
    let e = engine();
    assert_eq!(e.project().name, "Test");
    assert!(e.project().timeline.tracks.is_empty());
    assert!(!e.can_undo());
    assert!(!e.can_redo());
    assert!(e.undo_label().is_none());
    assert!(e.snapshot_names().is_empty());
}

#[test]
fn apply_records_labelled_undo_step() {
    let mut e = engine();
    let v1 = add_track(&mut e, TrackKind::Video, "V1");
    let a = e.import_asset(video_asset("/media/beach.mov"));
    insert(&mut e, a, v1, 10, 48).unwrap();
    assert_eq!(e.undo_label().as_deref(), Some("Insert clip"));
    let clip = &e.project().timeline.tracks[0].clips[0];
    // the label is the file name without its extension
    assert_eq!(clip.label, "beach");
    assert_eq!(clip.timeline_in, 10);
    assert_eq!(clip.source_duration, 48);
    assert_eq!(e.total_frames(), 58);
}

#[test]
fn undo_restores_and_redo_reapplies() {
    let mut e = engine();
    let v1 = add_track(&mut e, TrackKind::Video, "V1");
    let a = e.import_asset(video_asset("/media/a.mp4"));
    insert(&mut e, a, v1, 0, 24).unwrap();
    assert_eq!(e.project().timeline.tracks[0].clips.len(), 1);

    let restored = e.undo().unwrap();
    assert_eq!(restored.timeline.tracks[0].clips.len(), 0);
    assert!(e.can_redo());
    assert_eq!(e.redo_label().as_deref(), Some("Insert clip"));

    let again = e.redo().unwrap();
    assert_eq!(again.timeline.tracks[0].clips.len(), 1);
    assert!(!e.can_redo());
}

#[test]
fn undo_with_empty_history_is_none() {
    let mut e = engine();
    assert!(e.undo().is_none());
    assert!(e.redo().is_none());
}

#[test]
fn new_edit_clears_redo() {
    let mut e = engine();
    add_track(&mut e, TrackKind::Video, "V1");
    e.undo().unwrap();
    assert!(e.can_redo());
    add_track(&mut e, TrackKind::Audio, "A1");
    assert!(!e.can_redo());
}

#[test]
fn overlapping_insert_fails_but_is_recorded() {
    let mut e = engine();
    let v1 = add_track(&mut e, TrackKind::Video, "V1");
    let a = e.import_asset(video_asset("/media/a.mp4"));
    insert(&mut e, a, v1, 0, 24).unwrap();
    let r = insert(&mut e, a, v1, 10, 24);
    assert!(matches!(r, Err(EngineError::Model(_))));
    assert_eq!(e.project().timeline.tracks[0].clips.len(), 1);
    assert_eq!(e.undo_label().as_deref(), Some("Insert clip"));
}

#[test]
fn unknown_clip_is_reported() {
    let mut e = engine();
    let missing = ClipId::from_u64(42);
    let r = e.apply(EditCommand::ToggleClipMute { clip_id: missing }, &Vec::new());
    assert!(matches!(r, Err(EngineError::UnknownClip(c)) if c == missing));
}

#[test]
fn batch_is_one_undo_step() {
    let mut e = engine();
    let v1 = add_track(&mut e, TrackKind::Video, "V1");
    let a = e.import_asset(video_asset("/media/a.mp4"));
    let cmds = vec![
        EditCommand::InsertClip { asset_id: a, track_id: v1, position: 0, source_in: 0, source_out: 10, link_group_id: None },
        EditCommand::InsertClip { asset_id: a, track_id: v1, position: 20, source_in: 0, source_out: 10, link_group_id: None },
        EditCommand::AddMarker { label: "m".to_string(), frame: 5 },
    ];
    e.apply_batch(cmds, &Vec::new()).unwrap();
    assert_eq!(e.undo_label().as_deref(), Some("3 edits"));
    assert_eq!(e.project().timeline.tracks[0].clips.len(), 2);
    assert_eq!(e.project().timeline.markers.len(), 1);
    e.undo().unwrap();
    assert_eq!(e.project().timeline.tracks[0].clips.len(), 0);
    assert_eq!(e.project().timeline.markers.len(), 0);
}

#[test]
fn batch_labels() {
    let one = vec![EditCommand::AddMarker { label: "m".to_string(), frame: 5 }];
    assert_eq!(batch_label_of(&one), "Add marker");
    let none: Vec<EditCommand> = Vec::new();
    assert_eq!(batch_label_of(&none), "0 edits");
    assert_eq!(decimal_string(0), "0");
    assert_eq!(decimal_string(7), "7");
    assert_eq!(decimal_string(128), "128");
    assert_eq!(decimal_string(1000), "1000");
}

#[test]
fn snapshots_save_restore_and_replace() {
    let mut e = engine();
    add_track(&mut e, TrackKind::Video, "V1");
    e.save_snapshot("one".to_string());
    add_track(&mut e, TrackKind::Audio, "A1");
    e.save_snapshot("two".to_string());
    e.save_snapshot("one".to_string());
    assert_eq!(e.snapshot_names(), vec!["two".to_string(), "one".to_string()]);

    assert!(e.restore_snapshot("two"));
    assert_eq!(e.project().timeline.tracks.len(), 2);
    assert_eq!(e.snapshot_names(), vec!["one".to_string()]);
    assert!(!e.restore_snapshot("two"));
}

#[test]
fn snapshots_keep_twenty() {
    let mut e = engine();
    for i in 0..25 {
        e.save_snapshot(format!("s{i}"));
    }
    let names = e.snapshot_names();
    assert_eq!(names.len(), 20);
    assert_eq!(names[0], "s5");
    assert_eq!(names[19], "s24");
}

#[test]
fn search_matches_label_description_and_tags() {
    let mut e = engine();
    let v1 = add_track(&mut e, TrackKind::Video, "V1");
    let mut beach = video_asset("/media/Beach.mov");
    tick();
    if let Asset::Video(v) = &mut beach {
        v.metadata.ai_description = Some("waves at sunset".to_string());
        v.metadata.ai_labels = vec!["ocean".to_string(), "sand".to_string()];
    }
    let a = e.import_asset(beach);
    tick();
    let b = e.import_asset(video_asset("/media/city.mp4"));
    insert(&mut e, a, v1, 0, 24).unwrap();
    insert(&mut e, b, v1, 100, 10).unwrap();

    let hits = e.search_clips("BEACH", None);
    assert_eq!(hits.len(), 1);
    assert_eq!(hits[0].asset_id, a);
    assert_eq!(e.search_clips("sunset", None).len(), 1);
    assert_eq!(e.search_clips("ocean sand", None).len(), 1);
    assert_eq!(e.search_clips("", None).len(), 2);
    assert_eq!(e.search_clips("", Some(20)).len(), 1);
    assert_eq!(e.search_clips("nothing", None).len(), 0);
}

#[test]
fn export_format_names() {
    assert_eq!(Engine::resolve_export_format("H264"), "avformat-x264");
    assert_eq!(Engine::resolve_export_format("hevc"), "avformat-x265");
    assert_eq!(Engine::resolve_export_format("ProRes4444"), "avformat-prores_ks");
    assert_eq!(Engine::resolve_export_format("webm"), "avformat-libvpx-vp9");
    assert_eq!(Engine::resolve_export_format("Avformat-Custom"), "avformat-custom");
}

#[test]
fn gaps_and_total_frames() {
    let mut e = engine();
    let v1 = add_track(&mut e, TrackKind::Video, "V1");
    let a = e.import_asset(video_asset("/media/a.mp4"));
    insert(&mut e, a, v1, 10, 10).unwrap();
    insert(&mut e, a, v1, 30, 5).unwrap();
    assert_eq!(e.find_gaps(v1), vec![(0, 10), (20, 30)]);
    assert_eq!(e.find_gaps(TrackId::from_u64(99)), Vec::<(i64, i64)>::new());
    assert_eq!(e.total_frames(), 35);
}

#[test]
fn relink_asset_path() {
    let mut e = engine();
    let a = e.import_asset(video_asset("/old/a.mp4"));
    e.relink_asset(a, "/new/a.mp4".to_string()).unwrap();
    assert_eq!(e.project().asset(a).unwrap().path(), "/new/a.mp4");
    let r = e.relink_asset(AssetId::from_u64(5), "/x".to_string());
    assert!(matches!(r, Err(EngineError::Generic("asset not found"))));
}

#[test]
fn loaded_project_gets_audio_clip_and_valid_playhead() {
    let mut p = Project::new("Loaded".to_string(), Canvas::hd_1080p(), Rational::fps_24());
    let v1 = p.add_video_track("V1".to_string());
    tick();
    let mut asset = video_asset("/media/interview.mov");
    if let Asset::Video(v) = &mut asset {
        v.metadata.duration_frames = Some(50);
        v.metadata.video = Some(VideoMetadata {
            width: 1920,
            height: 1080,
            codec: "h264".to_string(),
            fps: F64Bits(0),
            bitrate_bps: 0,
            has_audio: true,
        });
    }
    let id = asset.id();
    p.add_asset(asset);
    let mut e = Engine::with_project(p);
    e.apply(
        EditCommand::InsertClip { asset_id: id, track_id: v1, position: 12, source_in: 0, source_out: 50, link_group_id: Some(7) },
        &Vec::new(),
    )
    .unwrap();
    let mut loaded = e.project().clone();
    loaded.timeline.playhead = 500;

    let e2 = Engine::from_loaded(loaded);
    let tl = &e2.project().timeline;
    assert_eq!(tl.playhead, 61);
    assert_eq!(tl.tracks.len(), 2);
    let audio = &tl.tracks[1];
    assert_eq!(audio.kind, TrackKind::Audio);
    assert_eq!(audio.name, "A1");
    assert_eq!(audio.clips.len(), 1);
    let c = &audio.clips[0];
    assert_eq!(c.asset_id, id);
    assert_eq!(c.timeline_in, 12);
    assert_eq!(c.source_duration, 50);
    assert_eq!(c.link_group_id, Some(7));
    assert_eq!(c.label, "interview");
    assert!(!e2.can_undo());
}

#[test]
fn loaded_project_with_duplicate_track_ids_is_fixed() {
    let mut p = Project::new("Dup".to_string(), Canvas::hd_1080p(), Rational::fps_24());
    p.add_video_track("V1".to_string());
    p.add_video_track("V2".to_string());
    let first = TrackId::from_u64(1);
    p.timeline.tracks[0].id = first;
    p.timeline.tracks[1].id = first;
    let e = Engine::from_loaded(p);
    let tl = &e.project().timeline;
    assert_eq!(tl.tracks[0].id, first);
    assert_ne!(tl.tracks[1].id, first);
    assert_eq!(tl.tracks[1].name, "V2");
}

#[test]
fn every_duplicate_track_id_is_replaced_by_a_distinct_one() {
    let mut p = Project::new("Dup3".to_string(), Canvas::hd_1080p(), Rational::fps_24());
    p.add_video_track("V1".to_string());
    p.add_video_track("V2".to_string());
    p.add_audio_track("A1".to_string());
    for t in p.timeline.tracks.iter_mut() {
        t.id = TrackId::from_u64(5);
    }
    let e = Engine::from_loaded(p);
    let tl = &e.project().timeline;
    assert_eq!(tl.tracks.len(), 3);
    assert_eq!(tl.tracks[0].id, TrackId::from_u64(5));
    for a in 0..3 {
        for b in (a + 1)..3 {
            assert_ne!(tl.tracks[a].id, tl.tracks[b].id);
        }
        assert_ne!(tl.tracks[a].id.0, 0);
    }
    assert_eq!(tl.tracks[2].name, "A1");
}

#[test]
fn audio_asset_without_clip_is_placed_at_timeline_end() {
    let mut p = Project::new("A".to_string(), Canvas::hd_1080p(), Rational::fps_24());
    p.add_audio_track("Music".to_string());
    let asset = Asset::Audio(AudioAsset { id: AssetId::next(), path: "/m/song.wav".to_string(), metadata: AssetMetadata::default() });
    let id = asset.id();
    p.add_asset(asset);
    let e = Engine::from_loaded(p);
    let clips = &e.project().timeline.tracks[0].clips;
    assert_eq!(clips.len(), 1);
    assert_eq!(clips[0].asset_id, id);
    assert_eq!(clips[0].timeline_in, 0);
    assert_eq!(clips[0].source_duration, 300);
    assert_eq!(clips[0].label, "song");
}

#[test]
fn layers_at_frame() {
    let mut e = engine();
    let v1 = add_track(&mut e, TrackKind::Video, "V1");
    let v2 = add_track(&mut e, TrackKind::Video, "V2");
    let a = e.import_asset(video_asset("/media/a.mp4"));
    insert(&mut e, a, v1, 0, 100).unwrap();
    insert(&mut e, a, v2, 50, 10).unwrap();
    let layers = layers_at(e.project(), 55);
    assert_eq!(layers.len(), 2);
    assert_eq!(layers[0].track, v1);
    assert_eq!(layers[0].source_frame, 55);
    assert_eq!(layers[1].track, v2);
    assert_eq!(layers[1].source_frame, 5);
    assert_eq!(layers_at(e.project(), 70).len(), 1);
    assert_eq!(layers_at(e.project(), 200).len(), 0);
}

#[test]
fn add_track_at_an_index() {
    let mut e = engine();
    let v1 = add_track(&mut e, TrackKind::Video, "V1");
    tick();
    e.apply(EditCommand::AddTrack { kind: TrackKind::Video, name: "V0".to_string(), index: Some(0) }, &Vec::new())
        .unwrap();
    let tracks = &e.project().timeline.tracks;
    assert_eq!(tracks.len(), 2);
    assert_eq!(tracks[0].name, "V0");
    assert_eq!(tracks[1].id, v1);
    tick();
    e.apply(EditCommand::AddTrack { kind: TrackKind::Audio, name: "A9".to_string(), index: Some(9) }, &Vec::new())
        .unwrap();
    assert_eq!(e.project().timeline.tracks[2].name, "A9");
}

#[test]
fn failed_batch_leaves_project_unchanged() {
    let mut e = engine();
    add_track(&mut e, TrackKind::Video, "V1");
    let markers_before = e.project().timeline.markers.len();
    tick();
    let r = e.apply(
        EditCommand::Batch {
            label: "b".to_string(),
            commands: vec![
                EditCommand::AddMarker { label: "m".to_string(), frame: 5 },
                EditCommand::RemoveClip { clip_id: ClipId::from_u64(42) },
            ],
        },
        &Vec::new(),
    );
    assert!(matches!(r, Err(EngineError::UnknownClip(c)) if c == ClipId::from_u64(42)));
    assert_eq!(e.project().timeline.markers.len(), markers_before);
}

#[test]
fn overlapping_clips_leave_no_false_gap() {
    let mut e = engine();
    let a1 = add_track(&mut e, TrackKind::Audio, "A1");
    let a = e.import_asset(video_asset("/media/x.mov"));
    insert(&mut e, a, a1, 0, 10).unwrap();
    insert(&mut e, a, a1, 2, 2).unwrap();
    insert(&mut e, a, a1, 6, 10).unwrap();
    insert(&mut e, a, a1, 20, 5).unwrap();
    assert_eq!(e.find_gaps(a1), vec![(16, 20)]);
}

#[test]
fn command_fits_checks_commands_before_applying() {
    let none = Vec::new();
    let mut e = engine();
    let v1 = add_track(&mut e, TrackKind::Video, "V1");
    let a = e.import_asset(video_asset("/media/a.mov"));
    let insert_cmd = EditCommand::InsertClip { asset_id: a, track_id: v1, position: 10, source_in: 0, source_out: 20, link_group_id: None };
    assert!(command_fits(e.project(), &insert_cmd, &none));
    let backwards = EditCommand::InsertClip { asset_id: a, track_id: v1, position: 10, source_in: 20, source_out: 0, link_group_id: None };
    assert!(!command_fits(e.project(), &backwards, &none));
    let past_end = EditCommand::InsertClip { asset_id: a, track_id: v1, position: i64::MAX, source_in: 0, source_out: 20, link_group_id: None };
    assert!(!command_fits(e.project(), &past_end, &none));
    tick();
    e.apply(insert_cmd, &none).unwrap();
    let cid = e.project().timeline.tracks[0].clips[0].id;

    let split = EditCommand::SplitClip { clip_id: cid, at_frame: 15 };
    assert!(command_fits(e.project(), &split, &none));
    let mv = EditCommand::MoveClip { clip_id: cid, new_track_id: v1, new_position: 40 };
    assert!(command_fits(e.project(), &mv, &none));
    let mv_far = EditCommand::MoveClip { clip_id: cid, new_track_id: v1, new_position: i64::MAX - 5 };
    assert!(!command_fits(e.project(), &mv_far, &none));
    let slip = EditCommand::SlipClip { clip_id: cid, delta: i64::MAX };
    assert!(command_fits(e.project(), &slip, &none));
    assert!(command_fits(e.project(), &EditCommand::RippleDelete { clip_id: cid }, &none));
    assert!(command_fits(e.project(), &EditCommand::RemoveClip { clip_id: cid }, &none));
    let trim_over = EditCommand::TrimClip { clip_id: cid, new_source_range: TimeRange { start: i64::MIN, end: i64::MAX } };
    assert!(!command_fits(e.project(), &trim_over, &none));

    let batch = EditCommand::Batch {
        label: "b".to_string(),
        commands: vec![
            EditCommand::AddMarker { label: "m".to_string(), frame: 5 },
            EditCommand::SetClipLabel { clip_id: cid, label: "x".to_string() },
        ],
    };
    assert!(command_fits(e.project(), &batch, &none));
    let batch_with_remove = EditCommand::Batch {
        label: "b".to_string(),
        commands: vec![EditCommand::RemoveClip { clip_id: cid }],
    };
    assert!(!command_fits(e.project(), &batch_with_remove, &none));

    tick();
    e.apply(split, &none).unwrap();
    assert_eq!(e.project().timeline.tracks[0].clips.len(), 2);
}
