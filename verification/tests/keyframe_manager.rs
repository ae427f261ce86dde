use gyroflow_core::keyframes::{keyframe_color, keyframe_text, Easing, Keyframe, KeyframeManager, KeyframeSpan, KeyframeType};

fn bits(v: f64) -> u64 {
    v.to_bits()
}

#[test]
fn set_then_read_back() {
    let mut m = KeyframeManager::new();
    assert!(!m.is_keyframed_internally(&KeyframeType::Fov));
    m.set(&KeyframeType::Fov, 1000, bits(1.5));
    assert!(m.is_keyframed_internally(&KeyframeType::Fov));
    let kfs = m.get_keyframes(&KeyframeType::Fov).unwrap();
    assert_eq!(kfs.len(), 1);
    assert_eq!(kfs[0], (1000, Keyframe { value: bits(1.5), easing: Easing::EaseInOut }));
    assert_eq!(m.easing(&KeyframeType::Fov, 1000), Some(Easing::EaseInOut));
    assert_eq!(m.easing(&KeyframeType::Fov, 999), None);
    assert_eq!(m.easing(&KeyframeType::VideoSpeed, 1000), None);
}

#[test]
fn setting_an_existing_keyframe_keeps_its_easing() {
    let mut m = KeyframeManager::new();
    m.set(&KeyframeType::Fov, 10, bits(1.0));
    m.set_easing(&KeyframeType::Fov, 10, Easing::EaseIn);
    m.set(&KeyframeType::Fov, 10, bits(2.0));
    let kfs = m.get_keyframes(&KeyframeType::Fov).unwrap();
    assert_eq!(kfs, &vec![(10, Keyframe { value: bits(2.0), easing: Easing::EaseIn })]);
    // easing of a keyframe that does not exist changes nothing
    m.set_easing(&KeyframeType::Fov, 11, Easing::EaseOut);
    m.set_easing(&KeyframeType::VideoRotation, 10, Easing::EaseOut);
    assert_eq!(m.get_keyframes(&KeyframeType::Fov).unwrap().len(), 1);
    assert!(m.get_keyframes(&KeyframeType::VideoRotation).is_none());
}

#[test]
fn keyframes_stay_ordered_by_timestamp() {
    let mut m = KeyframeManager::new();
    for ts in [50, -20, 30, 10, 30] {
        m.set(&KeyframeType::VideoSpeed, ts, bits(ts as f64));
    }
    let ts: Vec<i64> = m.get_keyframes(&KeyframeType::VideoSpeed).unwrap().iter().map(|x| x.0).collect();
    assert_eq!(ts, vec![-20, 10, 30, 50]);
}

#[test]
fn remove_and_clear() {
    let mut m = KeyframeManager::new();
    m.set(&KeyframeType::Fov, 10, bits(1.0));
    m.set(&KeyframeType::Fov, 20, bits(2.0));
    m.set(&KeyframeType::LockHorizonRoll, 5, bits(3.0));
    m.remove(&KeyframeType::Fov, 10);
    m.remove(&KeyframeType::Fov, 15);
    m.remove(&KeyframeType::ZoomingSpeed, 15);
    assert_eq!(m.get_keyframes(&KeyframeType::Fov).unwrap().len(), 1);
    m.remove(&KeyframeType::Fov, 20);
    // the type stays, with no keyframes
    assert!(m.get_keyframes(&KeyframeType::Fov).is_some());
    assert!(!m.is_keyframed_internally(&KeyframeType::Fov));
    assert_eq!(m.get_all_keys(), vec![KeyframeType::LockHorizonRoll]);
    m.clear_type(&KeyframeType::LockHorizonRoll);
    assert!(m.get_keyframes(&KeyframeType::LockHorizonRoll).is_none());
    m.set(&KeyframeType::Fov, 1, bits(1.0));
    m.set_timestamp_scale(Some(bits(2.0)));
    assert_eq!(m.timestamp_scale(), Some(bits(2.0)));
    m.clear();
    assert!(m.get_keyframes(&KeyframeType::Fov).is_none());
    assert_eq!(m.timestamp_scale(), None);
    assert!(m.get_all_keys().is_empty());
}

#[test]
fn all_keys_in_enum_order() {
    let mut m = KeyframeManager::new();
    m.set(&KeyframeType::VideoSpeed, 1, bits(1.0));
    m.set(&KeyframeType::Fov, 1, bits(1.0));
    m.set(&KeyframeType::SmoothingParamYaw, 1, bits(1.0));
    assert_eq!(m.get_all_keys(), vec![KeyframeType::Fov, KeyframeType::SmoothingParamYaw, KeyframeType::VideoSpeed]);
}

#[test]
fn next_and_previous_keyframes() {
    let mut m = KeyframeManager::new();
    m.set(&KeyframeType::Fov, 100, bits(1.0));
    m.set(&KeyframeType::Fov, 300, bits(3.0));
    m.set(&KeyframeType::VideoRotation, 200, bits(2.0));
    m.set(&KeyframeType::ZoomingSpeed, 300, bits(4.0));

    let n = m.next_keyframe(100, Some(KeyframeType::Fov)).unwrap();
    assert_eq!((n.0, n.1), (KeyframeType::Fov, 300));
    assert!(m.next_keyframe(300, Some(KeyframeType::Fov)).is_none());
    assert!(m.next_keyframe(0, Some(KeyframeType::VideoSpeed)).is_none());

    let n = m.next_keyframe(100, None).unwrap();
    assert_eq!((n.0, n.1), (KeyframeType::VideoRotation, 200));
    // equally near: the first type in the order of the enum wins
    let n = m.next_keyframe(250, None).unwrap();
    assert_eq!((n.0, n.1, n.2.value), (KeyframeType::Fov, 300, bits(3.0)));
    assert!(m.next_keyframe(300, None).is_none());

    let p = m.prev_keyframe(300, Some(KeyframeType::Fov)).unwrap();
    assert_eq!((p.0, p.1), (KeyframeType::Fov, 100));
    let p = m.prev_keyframe(301, None).unwrap();
    assert_eq!((p.0, p.1), (KeyframeType::Fov, 300));
    let p = m.prev_keyframe(250, None).unwrap();
    assert_eq!((p.0, p.1), (KeyframeType::VideoRotation, 200));
    assert!(m.prev_keyframe(100, None).is_none());
}

#[test]
fn value_span_holds_the_timestamp_to_the_keyframes() {
    let mut m = KeyframeManager::new();
    assert_eq!(m.value_span(&KeyframeType::Fov, 0), None);
    m.set(&KeyframeType::Fov, 100, bits(1.0));
    assert_eq!(m.value_span(&KeyframeType::Fov, -5000), Some(KeyframeSpan::At(Keyframe { value: bits(1.0), easing: Easing::EaseInOut })));
    m.set(&KeyframeType::Fov, 200, bits(2.0));
    m.set(&KeyframeType::Fov, 400, bits(4.0));
    assert_eq!(m.value_span(&KeyframeType::Fov, 0), Some(KeyframeSpan::At(Keyframe { value: bits(1.0), easing: Easing::EaseInOut })));
    assert_eq!(m.value_span(&KeyframeType::Fov, 999), Some(KeyframeSpan::At(Keyframe { value: bits(4.0), easing: Easing::EaseInOut })));
    assert_eq!(m.value_span(&KeyframeType::Fov, 200), Some(KeyframeSpan::At(Keyframe { value: bits(2.0), easing: Easing::EaseInOut })));
    match m.value_span(&KeyframeType::Fov, 250) {
        Some(KeyframeSpan::Between { before_ts, after_ts, before, after }) => {
            assert_eq!((before_ts, after_ts), (200, 400));
            assert_eq!((before.value, after.value), (bits(2.0), bits(4.0)));
        }
        other => panic!("unexpected {:?}", other),
    }
    m.remove(&KeyframeType::Fov, 100);
    m.remove(&KeyframeType::Fov, 200);
    m.remove(&KeyframeType::Fov, 400);
    assert_eq!(m.value_span(&KeyframeType::Fov, 0), None);
}

#[test]
fn easing_between_keyframes() {
    assert_eq!(Easing::get(&Easing::EaseOut, &Easing::EaseIn), Easing::EaseInOut);
    assert_eq!(Easing::get(&Easing::EaseInOut, &Easing::EaseInOut), Easing::EaseInOut);
    assert_eq!(Easing::get(&Easing::NoEasing, &Easing::EaseIn), Easing::EaseOut);
    assert_eq!(Easing::get(&Easing::EaseOut, &Easing::NoEasing), Easing::EaseIn);
    assert_eq!(Easing::get(&Easing::EaseIn, &Easing::EaseOut), Easing::NoEasing);
}

#[test]
fn names_colors_and_labels() {
    assert_eq!(KeyframeType::LockHorizonRoll.to_string(), "LockHorizonRoll");
    assert_eq!(KeyframeType::from_name("VideoSpeed"), Some(KeyframeType::VideoSpeed));
    assert_eq!(KeyframeType::from_name("videospeed"), None);
    assert_eq!(keyframe_color(&KeyframeType::Fov), "#8ee6ea");
    assert_eq!(keyframe_text(&KeyframeType::SmoothingParamTimeConstant2), "Max smoothness at high velocity");
    assert_eq!(Easing::EaseInOut.to_string(), "EaseInOut");
    assert_eq!(Easing::from_name("EaseOut"), Some(Easing::EaseOut));
    assert_eq!(Easing::from_name("Linear"), None);
    for i in 0..17 {
        let t = KeyframeType::from_index(i);
        assert_eq!(t.index(), i);
        assert_eq!(KeyframeType::from_name(&t.to_string()), Some(t));
    }
}

#[test]
fn a_fractional_timeline_scale_comes_back_exactly() {
    let mut m = KeyframeManager::new();
    m.set_timestamp_scale(Some(1.001f64.to_bits()));
    assert_eq!(m.timestamp_scale().map(f64::from_bits), Some(1.001));
}
