use rook::planes::{nv12_planes, pack_rows};
use rook::asset::{Asset, AssetMetadata, VideoAsset};
use rook::canvas::Canvas;
use rook::commands::EditCommand;
use rook::decoder_select::{
    codec_kind_for_caps, decoder_priority, describe_selection, pad_is_video, select_decoder_factory,
    select_from_priority, DecoderPlatform, DecoderSelection, VideoCodecKind,
};
use rook::engine::Engine;
use rook::graph::{build_graph_from_project, GraphTrackKind};
use rook::ids::{AssetId, ClipId, TrackId};
use rook::mlt_plan::{mlt_action, track_playlist, track_playlists, MltAction};
use rook::time::Rational;
use rook::track::TrackKind;

fn tick() {
    let t = std::time::Instant::now();
    while t.elapsed() < std::time::Duration::from_millis(2) {}
}

fn engine_with_clips() -> (Engine, TrackId, AssetId, Vec<ClipId>) {
    let mut e = Engine::new("Playback".to_string(), Canvas::hd_1080p(), Rational::fps_24());
    e.apply(EditCommand::AddTrack { kind: TrackKind::Video, name: "V1".to_string(), index: None }, &Vec::new())
        .unwrap();
    tick();
    e.apply(EditCommand::AddTrack { kind: TrackKind::Audio, name: "A1".to_string(), index: None }, &Vec::new())
        .unwrap();
    let t = e.project().timeline.tracks[0].id;
    let a = e.import_asset(Asset::Video(VideoAsset {
        id: AssetId::next(),
        path: "/media/shot.mov".to_string(),
        metadata: AssetMetadata::default(),
        proxy_path: None,
        proxy_status: None,
        fingerprint: None,
    }));
    let mut ids = Vec::new();
    for (at, src_in, len) in [(0i64, 10i64, 50i64), (100, 0, 20)] {
        tick();
        e.apply(
            EditCommand::InsertClip {
                asset_id: a,
                track_id: t,
                position: at,
                source_in: src_in,
                source_out: src_in + len,
                link_group_id: None,
            },
            &Vec::new(),
        )
        .unwrap();
        ids.push(e.project().timeline.tracks[0].clips.iter().find(|c| c.timeline_in == at).unwrap().id);
    }
    (e, t, a, ids)
}

#[test]
fn playlists_follow_the_tracks() {
    let (e, t, _a, ids) = engine_with_clips();
    let lists = track_playlists(e.project());
    assert_eq!(lists.len(), 2);
    assert_eq!(lists[0].track, t);
    assert_eq!(lists[0].index, 0);
    assert_eq!(lists[0].entries.len(), 2);
    assert_eq!(lists[0].entries[0].clip, ids[0]);
    assert_eq!(lists[0].entries[0].path, "/media/shot.mov");
    assert_eq!((lists[0].entries[0].source_in, lists[0].entries[0].source_out), (10, 60));
    assert_eq!((lists[0].entries[1].source_in, lists[0].entries[1].source_out), (0, 20));
    assert_eq!(lists[1].index, 1);
    assert!(lists[1].entries.is_empty());
    let one = track_playlist(e.project(), t).unwrap();
    assert_eq!(one.entries.len(), 2);
    assert!(track_playlist(e.project(), TrackId::from_u64(12345)).is_none());
}

#[test]
fn edits_are_mirrored() {
    let (e, t, a, ids) = engine_with_clips();
    let p = e.project();
    let insert = EditCommand::InsertClip {
        asset_id: a,
        track_id: t,
        position: 60,
        source_in: 5,
        source_out: 9,
        link_group_id: None,
    };
    match mlt_action(p, &insert) {
        MltAction::Insert { track, index, path, source_in, source_out } => {
            assert_eq!(track, t);
            assert_eq!(index, Some(1));
            assert_eq!(path, "/media/shot.mov");
            assert_eq!((source_in, source_out), (5, 9));
        }
        other => panic!("unexpected {:?}", other),
    }
    let missing = EditCommand::InsertClip {
        asset_id: AssetId::from_u64(1),
        track_id: t,
        position: 0,
        source_in: 0,
        source_out: 1,
        link_group_id: None,
    };
    assert!(matches!(mlt_action(p, &missing), MltAction::Nothing));
    match mlt_action(p, &EditCommand::RemoveClip { clip_id: ids[1] }) {
        MltAction::Remove { clip, slot } => {
            assert_eq!(clip, ids[1]);
            assert_eq!(slot, Some((t, 1)));
        }
        other => panic!("unexpected {:?}", other),
    }
    match mlt_action(p, &EditCommand::RemoveClip { clip_id: ClipId::from_u64(7) }) {
        MltAction::Remove { slot, .. } => assert_eq!(slot, None),
        other => panic!("unexpected {:?}", other),
    }
    assert!(matches!(mlt_action(p, &EditCommand::RippleDelete { clip_id: ids[0] }), MltAction::RebuildTrack(x) if x == t));
    assert!(matches!(
        mlt_action(p, &EditCommand::RippleDelete { clip_id: ClipId::from_u64(7) }),
        MltAction::Nothing
    ));
    assert!(matches!(mlt_action(p, &EditCommand::SplitClip { clip_id: ids[0], at_frame: 10 }), MltAction::RebuildAll));
    assert!(matches!(mlt_action(p, &EditCommand::ToggleTrackMute { track_id: t }), MltAction::RebuildAll));
}

#[test]
fn codecs_and_pads() {
    assert_eq!(codec_kind_for_caps("video/x-h264"), VideoCodecKind::H264);
    assert_eq!(codec_kind_for_caps("video/x-265"), VideoCodecKind::H265);
    assert_eq!(codec_kind_for_caps("video/x-h265"), VideoCodecKind::H265);
    assert_eq!(codec_kind_for_caps("video/x-prores"), VideoCodecKind::ProRes);
    assert_eq!(codec_kind_for_caps("video/x-vp9"), VideoCodecKind::Other);
    assert!(pad_is_video(Some("video/x-raw"), "src_0"));
    assert!(!pad_is_video(Some("audio/x-raw"), "video_0"));
    assert!(pad_is_video(None, "video_0"));
    assert!(!pad_is_video(None, "vid"));
}

#[test]
fn decoder_choice() {
    let mac = decoder_priority(DecoderPlatform::MacOs, VideoCodecKind::H264);
    assert_eq!(mac.len(), 3);
    assert_eq!(mac[0].factory_name, "vtdec_h264");
    let only_soft = |name: &str| name.starts_with("avdec");
    let s = select_from_priority(&mac, &only_soft);
    assert_eq!(s.factory_name, "avdec_h264");
    assert!(!s.is_hardware);
    let linux_hevc = select_decoder_factory(DecoderPlatform::Linux, VideoCodecKind::H265, &|n: &str| n == "vah265dec");
    assert_eq!(linux_hevc.factory_name, "vah265dec");
    assert!(linux_hevc.is_hardware);
    let none = |_: &str| false;
    let w = select_decoder_factory(DecoderPlatform::Windows, VideoCodecKind::H264, &none);
    assert_eq!(w.factory_name, "avdec_h264");
    let empty: Vec<DecoderSelection> = Vec::new();
    let d = select_from_priority(&empty, &none);
    assert_eq!(d.factory_name, "avdec_h264");
    assert_eq!(d.description, "Software libavcodec H.264 decoder");
    assert_eq!(decoder_priority(DecoderPlatform::Other, VideoCodecKind::H265).len(), 1);
    assert_eq!(
        describe_selection(&mac[0]),
        "vtdec_h264 (VideoToolbox H.264 hardware decoder, hardware acceleration)"
    );
    assert_eq!(
        describe_selection(&mac[2]),
        "avdec_h264 (libavcodec software H.264 decoder, software fallback)"
    );
}

#[test]
fn graph_nodes_and_edges() {
    let (mut e, t, a, ids) = engine_with_clips();
    tick();
    e.apply(EditCommand::AddTrack { kind: TrackKind::Text, name: "T1".to_string(), index: None }, &Vec::new())
        .unwrap();
    tick();
    e.apply(
        EditCommand::InsertClip { asset_id: a, track_id: t, position: 200, source_in: 0, source_out: 5, link_group_id: Some(9) },
        &Vec::new(),
    )
    .unwrap();
    let g = build_graph_from_project(e.project());
    assert_eq!(g.version, 1);
    assert_eq!(g.nodes.len(), 3);
    assert_eq!(g.tracks.len(), 3);
    assert_eq!(g.tracks[0].name, "V1");
    assert_eq!(g.tracks[0].kind, GraphTrackKind::Video);
    assert_eq!(g.tracks[1].kind, GraphTrackKind::Audio);
    assert_eq!(g.tracks[2].kind, GraphTrackKind::Custom("Text".to_string()));
    assert_eq!(g.tracks[0].node_ids.len(), 3);
    assert_eq!(g.nodes[0].media_range.start, 10);
    assert_eq!(g.nodes[0].media_range.duration, 50);
    assert_eq!(g.nodes[0].timeline_range.start, 0);
    assert_eq!(g.nodes[0].timeline_range.duration, 50);
    assert_eq!(g.nodes[2].link_group_id, Some(9));
    assert_eq!(g.edges.len(), 2);
    assert_eq!(g.edges[0].from, g.tracks[0].node_ids[0]);
    assert_eq!(g.edges[0].to, g.tracks[0].node_ids[1]);
    assert_eq!(g.edges[1].to, g.nodes[2].id);
    assert_eq!(ids.len(), 2);
}

#[test]
fn padded_rows_are_packed() {
    let src: Vec<u8> = (0u8..12).collect();
    assert_eq!(pack_rows(&src, 3, 4, 3), vec![0, 1, 2, 4, 5, 6, 8, 9, 10]);
    assert_eq!(pack_rows(&src, 2, 5, 3), vec![0, 1, 5, 6, 10, 11]);
    assert!(pack_rows(&src, 3, 4, 0).is_empty());
}

#[test]
fn nv12_planes_from_strided_buffers() {
    // A 4x2 frame: luma rows padded to 6 bytes, chroma row padded to 5.
    let luma: Vec<u8> = vec![1, 2, 3, 4, 0, 0, 5, 6, 7, 8];
    let chroma: Vec<u8> = vec![9, 10, 11, 12, 0];
    let (y, uv) = nv12_planes(Some((&luma, 6)), Some((&chroma, 5)), 4, 2);
    assert_eq!(y, vec![1, 2, 3, 4, 5, 6, 7, 8]);
    assert_eq!(uv, vec![9, 10, 11, 12]);
    let (y, uv) = nv12_planes(None, None, 4, 2);
    assert_eq!(y, vec![0; 8]);
    assert_eq!(uv, vec![0; 4]);
}
