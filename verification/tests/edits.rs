use rook::apply::EngineError;
use rook::asset::{Asset, AssetMetadata, VideoAsset};
use rook::canvas::Canvas;
use rook::commands::EditCommand;
use rook::engine::Engine;
use rook::ids::{AssetId, ClipId, TrackId};
use rook::time::{Rational, TimeRange};
use rook::track::TrackKind;

/// Identifiers are the high half of a time-ordered UUID, so two made within
/// the same millisecond can coincide; wait for the clock to move on.
fn tick() {
    let t = std::time::Instant::now();
    while t.elapsed() < std::time::Duration::from_millis(2) {}
}

fn setup() -> (Engine, TrackId, AssetId) {
    let mut e = Engine::new("Edits".to_string(), Canvas::hd_1080p(), Rational::fps_24());
    e.apply(EditCommand::AddTrack { kind: TrackKind::Video, name: "V1".to_string(), index: None }, &Vec::new())
        .unwrap();
    let t = e.project().timeline.tracks[0].id;
    let a = e.import_asset(Asset::Video(VideoAsset {
        id: AssetId::next(),
        path: "/media/shot.mov".to_string(),
        metadata: AssetMetadata::default(),
        proxy_path: None,
        proxy_status: None,
        fingerprint: None,
    }));
    (e, t, a)
}

fn put(e: &mut Engine, a: AssetId, t: TrackId, at: i64, len: i64) -> ClipId {
    tick();
    e.apply(
        EditCommand::InsertClip { asset_id: a, track_id: t, position: at, source_in: 0, source_out: len, link_group_id: None },
        &Vec::new(),
    )
    .unwrap();
    let clips = &e.project().timeline.tracks[0].clips;
    clips.iter().find(|c| c.timeline_in == at).unwrap().id
}

#[test]
fn split_makes_two_abutting_halves() {
    let (mut e, t, a) = setup();
    let c = put(&mut e, a, t, 0, 100);
    tick();
    e.apply(EditCommand::SplitClip { clip_id: c, at_frame: 40 }, &Vec::new()).unwrap();
    let clips = &e.project().timeline.tracks[0].clips;
    assert_eq!(clips.len(), 2);
    assert_eq!(clips[0].label, "shot (A)");
    assert_eq!((clips[0].timeline_in, clips[0].source_in, clips[0].source_duration), (0, 0, 40));
    assert_eq!(clips[1].label, "shot (B)");
    assert_eq!((clips[1].timeline_in, clips[1].source_in, clips[1].source_duration), (40, 40, 60));
    assert_ne!(clips[0].id, c);
    assert_ne!(clips[1].id, c);
    assert_eq!(e.undo_label().as_deref(), Some("Split clip"));
}

#[test]
fn ripple_delete_closes_the_gap() {
    let (mut e, t, a) = setup();
    let first = put(&mut e, a, t, 0, 10);
    put(&mut e, a, t, 10, 10);
    put(&mut e, a, t, 30, 5);
    e.apply(EditCommand::RippleDelete { clip_id: first }, &Vec::new()).unwrap();
    let starts: Vec<i64> = e.project().timeline.tracks[0].clips.iter().map(|c| c.timeline_in).collect();
    assert_eq!(starts, vec![0, 20]);
}

#[test]
fn remove_clip_leaves_a_gap() {
    let (mut e, t, a) = setup();
    let first = put(&mut e, a, t, 0, 10);
    put(&mut e, a, t, 10, 10);
    e.apply(EditCommand::RemoveClip { clip_id: first }, &Vec::new()).unwrap();
    let starts: Vec<i64> = e.project().timeline.tracks[0].clips.iter().map(|c| c.timeline_in).collect();
    assert_eq!(starts, vec![10]);
    let r = e.apply(EditCommand::RemoveClip { clip_id: first }, &Vec::new());
    assert!(matches!(r, Err(EngineError::UnknownClip(_))));
}

#[test]
fn move_clip_to_a_new_position() {
    let (mut e, t, a) = setup();
    let c = put(&mut e, a, t, 0, 10);
    e.apply(EditCommand::MoveClip { clip_id: c, new_track_id: t, new_position: 50 }, &Vec::new()).unwrap();
    let clip = &e.project().timeline.tracks[0].clips[0];
    assert_eq!(clip.id, c);
    assert_eq!(clip.timeline_in, 50);
}

#[test]
fn move_to_unknown_track_fails() {
    let (mut e, t, a) = setup();
    let c = put(&mut e, a, t, 0, 10);
    let r = e.apply(EditCommand::MoveClip { clip_id: c, new_track_id: TrackId::from_u64(77), new_position: 5 }, &Vec::new());
    assert!(matches!(r, Err(EngineError::Generic("target track not found"))));
}

#[test]
fn trim_and_slip() {
    let (mut e, t, a) = setup();
    let c = put(&mut e, a, t, 0, 100);
    e.apply(EditCommand::TrimClip { clip_id: c, new_source_range: TimeRange { start: 10, end: 30 } }, &Vec::new()).unwrap();
    let clip = &e.project().timeline.tracks[0].clips[0];
    assert_eq!((clip.source_in, clip.source_duration), (10, 20));
    e.apply(EditCommand::SlipClip { clip_id: c, delta: -50 }, &Vec::new()).unwrap();
    assert_eq!(e.project().timeline.tracks[0].clips[0].source_in, 0);
    e.apply(EditCommand::SlipClip { clip_id: c, delta: 7 }, &Vec::new()).unwrap();
    assert_eq!(e.project().timeline.tracks[0].clips[0].source_in, 7);
}

#[test]
fn mute_toggles_and_label_changes() {
    let (mut e, t, a) = setup();
    let c = put(&mut e, a, t, 0, 10);
    e.apply(EditCommand::ToggleClipMute { clip_id: c }, &Vec::new()).unwrap();
    assert!(e.project().timeline.tracks[0].clips[0].mute_audio);
    e.apply(EditCommand::ToggleClipMute { clip_id: c }, &Vec::new()).unwrap();
    assert!(!e.project().timeline.tracks[0].clips[0].mute_audio);
    e.apply(EditCommand::SetClipLabel { clip_id: c, label: "Hero".to_string() }, &Vec::new()).unwrap();
    assert_eq!(e.project().timeline.tracks[0].clips[0].label, "Hero");
}

#[test]
fn markers_add_move_remove() {
    let (mut e, _, _) = setup();
    e.apply(EditCommand::AddMarker { label: "cue".to_string(), frame: 12 }, &Vec::new()).unwrap();
    let id = e.project().timeline.markers[0].id;
    e.apply(EditCommand::MoveMarker { marker_id: id, new_frame: 30 }, &Vec::new()).unwrap();
    assert_eq!(e.project().timeline.markers[0].frame, 30);
    e.apply(EditCommand::RemoveMarker { marker_id: id }, &Vec::new()).unwrap();
    assert!(e.project().timeline.markers.is_empty());
}

#[test]
fn tracks_add_rename_remove() {
    let (mut e, t, _) = setup();
    e.apply(EditCommand::RenameTrack { track_id: t, new_name: "Main".to_string() }, &Vec::new()).unwrap();
    assert_eq!(e.project().timeline.tracks[0].name, "Main");
    tick();
    e.apply(EditCommand::AddTrack { kind: TrackKind::Video, name: "V2".to_string(), index: None }, &Vec::new())
        .unwrap();
    assert_eq!(e.project().timeline.tracks[1].index, 1);
    e.apply(EditCommand::RemoveTrack { track_id: t }, &Vec::new()).unwrap();
    assert_eq!(e.project().timeline.tracks.len(), 1);
    assert_eq!(e.project().timeline.tracks[0].name, "V2");
}
