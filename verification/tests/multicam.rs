use rook::ids::{AngleId, AssetId, ClipId};
use rook::multicam::{MulticamAngle, MulticamAudioPolicy, MulticamClip, MulticamSyncMethod};

fn mk_angle(label: &str) -> MulticamAngle {
    MulticamAngle {
        id: AngleId::next(),
        label: label.to_string(),
        asset_id: AssetId::next(),
        offset_frames: 0,
        source_in: 0,
        enabled: true,
        gain_trim_db: None,
    }
}

#[test]
fn test_angle_switching() {
    let clip_id = ClipId::next();
    let angles = vec![mk_angle("Cam A"), mk_angle("Cam B"), mk_angle("Cam C")];
    let mut mc = MulticamClip::new(clip_id, "Test MC".to_string(), angles, MulticamSyncMethod::Manual, 0);

    assert_eq!(mc.active_angle_index, 0);
    assert_eq!(mc.active_angle().unwrap().label, "Cam A");

    mc.next_angle();
    assert_eq!(mc.active_angle_index, 1);
    assert_eq!(mc.active_angle().unwrap().label, "Cam B");

    mc.next_angle();
    assert_eq!(mc.active_angle_index, 2);

    mc.next_angle(); // wraps
    assert_eq!(mc.active_angle_index, 0);

    mc.prev_angle(); // wraps to last
    assert_eq!(mc.active_angle_index, 2);
}

#[test]
fn test_remove_angle() {
    let clip_id = ClipId::next();
    let angles = vec![mk_angle("A"), mk_angle("B"), mk_angle("C")];
    let mut mc = MulticamClip::new(clip_id, "MC".to_string(), angles, MulticamSyncMethod::Manual, 0);
    mc.switch_to(2);

    let b_id = mc.angles[1].id;
    mc.remove_angle(b_id);
    assert_eq!(mc.angle_count(), 2);
    // active index should clamp to last valid (1)
    assert_eq!(mc.active_angle_index, 1);

    assert!(mc.is_valid());
}

#[test]
fn test_audio_policy_default() {
    let clip_id = ClipId::next();
    let mc = MulticamClip::new(
        clip_id,
        "MC".to_string(),
        vec![mk_angle("A"), mk_angle("B")],
        MulticamSyncMethod::Timecode,
        0,
    );
    assert_eq!(mc.audio_policy, MulticamAudioPolicy::FollowVideo);
}

#[test]
fn test_collapse() {
    let clip_id = ClipId::next();
    let angles = vec![mk_angle("A"), mk_angle("B")];
    let mut mc = MulticamClip::new(clip_id, "MC".to_string(), angles, MulticamSyncMethod::Manual, 0);
    mc.switch_to(1);

    let collapsed = mc.collapse().unwrap();
    assert_eq!(collapsed.label, "B");
}

#[test]
fn switch_to_out_of_range_keeps_angle() {
    let mut mc = MulticamClip::new(
        ClipId::next(),
        "MC".to_string(),
        vec![mk_angle("A"), mk_angle("B")],
        MulticamSyncMethod::Manual,
        0,
    );
    assert!(mc.switch_to(5).is_none());
    assert_eq!(mc.active_angle_index, 0);
}

#[test]
fn angle_constructor_defaults() {
    let asset = AssetId::next();
    let a = MulticamAngle::new(asset, "Wide".to_string());
    assert_eq!(a.label, "Wide");
    assert_eq!(a.asset_id, asset);
    assert_eq!(a.offset_frames, 0);
    assert_eq!(a.source_in, 0);
    assert!(a.enabled);
    assert!(a.gain_trim_db.is_none());
    assert!(a.id.0 != 0);
}

#[test]
fn removing_unknown_angle_changes_nothing() {
    let mut mc = MulticamClip::new(
        ClipId::next(),
        "MC".to_string(),
        vec![mk_angle("A"), mk_angle("B")],
        MulticamSyncMethod::Manual,
        0,
    );
    assert!(mc.remove_angle(AngleId::from_u64(1)).is_none());
    assert_eq!(mc.angle_count(), 2);
}
