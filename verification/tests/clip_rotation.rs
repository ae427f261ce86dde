use gyroflow_core::clip_rotation::{blackmagic_rotation_adjustment, drops_frame_readout_time, starts_with};

#[test]
fn a_blackmagic_clip_turned_by_90_reads_horizontally_with_the_readout_negated() {
    let r = blackmagic_rotation_adjustment(Some("Blackmagic RAW"), Some(90));
    assert!(r.horizontal_rs);
    assert_eq!(r.imu_orientation.as_deref(), Some("xYz"));
    assert!(r.negate_readout);
}

#[test]
fn a_blackmagic_clip_turned_by_270_reads_horizontally() {
    let r = blackmagic_rotation_adjustment(Some("Blackmagic Pocket 6K"), Some(270));
    assert!(r.horizontal_rs);
    assert_eq!(r.imu_orientation.as_deref(), Some("Xyz"));
    assert!(!r.negate_readout);
}

#[test]
fn a_blackmagic_clip_turned_by_180_keeps_a_vertical_shutter() {
    let r = blackmagic_rotation_adjustment(Some("Blackmagic RAW"), Some(180));
    assert!(!r.horizontal_rs);
    assert_eq!(r.imu_orientation.as_deref(), Some("YXz"));
    assert!(r.negate_readout);
}

#[test]
fn other_sources_and_rotations_change_nothing() {
    for (source, rotation) in [(Some("GoPro HERO9"), Some(90)), (None, Some(90)), (Some("Blackmagic RAW"), Some(0)), (Some("Blackmagic RAW"), None), (Some("Blackmagic"), Some(90))] {
        let r = blackmagic_rotation_adjustment(source, rotation);
        assert!(!r.horizontal_rs);
        assert_eq!(r.imu_orientation, None);
        assert!(!r.negate_readout);
    }
}

#[test]
fn prefixes() {
    assert!(starts_with("Blackmagic RAW", "Blackmagic "));
    assert!(starts_with("abc", ""));
    assert!(!starts_with("ab", "abc"));
    assert!(!starts_with("xbc", "ab"));
}

#[test]
fn a_gopro_readout_time_is_dropped() {

    assert!(drops_frame_readout_time(Some("GoPro HERO11 Black")));
    assert!(!drops_frame_readout_time(Some("GoPro")));
    assert!(!drops_frame_readout_time(Some("Sony a7S III")));
    assert!(!drops_frame_readout_time(None));
}
