use rasterm::engine::animation::{
    time_bits, time_code, Animation, Channel, Interpolation, SamplePoint,
};

fn code(t: f32) -> u32 {
    time_code(t.to_bits())
}

#[test]
fn time_codes_order_like_times() {
    let times = [f32::NEG_INFINITY, -1e9, -2.5, -1.0, -1e-30, 0.0, 1e-30, 0.5, 1.0, 3.0, 1e9, f32::INFINITY];
    for w in times.windows(2) {
        assert!(code(w[0]) < code(w[1]), "{} < {}", w[0], w[1]);
    }
    assert_eq!(code(-0.0), code(0.0));
}

#[test]
fn time_codes_decode_to_their_time() {
    for &t in &[0.0f32, -0.0, 1.5, -7.25, 1e-40, f32::MAX, f32::MIN] {
        let back = f32::from_bits(time_bits(code(t)));
        assert_eq!(back, t);
        assert_eq!(back.to_bits(), if t == 0.0 { 0 } else { t.to_bits() });
    }
}

#[test]
fn test_channel_sorted_insertion() {
    let mut ch = Channel::new();
    ch.add_keyframe(code(2.0), 20.0f32, Interpolation::Linear);
    ch.add_keyframe(code(0.0), 0.0f32, Interpolation::Linear);
    ch.add_keyframe(code(1.0), 10.0f32, Interpolation::Linear);
    assert_eq!(ch.len(), 3);
    let values: Vec<f32> = (0..ch.len()).map(|i| ch.keyframe(i).value).collect();
    assert_eq!(values, vec![0.0, 10.0, 20.0]);
    assert_eq!(ch.time_span(), Some((code(0.0), code(2.0))));
    // 0.5 lies between the keyframes holding 0.0 and 10.0.
    assert_eq!(ch.locate(code(0.5)), SamplePoint::Segment(0));
}

#[test]
fn channel_equal_times_new_one_first() {
    let mut ch = Channel::new();
    ch.add_keyframe(7, 'a', Interpolation::Linear);
    ch.add_keyframe(7, 'b', Interpolation::Linear);
    ch.add_keyframe(3, 'c', Interpolation::Linear);
    let values: String = (0..ch.len()).map(|i| ch.keyframe(i).value).collect();
    assert_eq!(values, "cba");
}

#[test]
fn test_empty_channel() {
    let ch: Channel<f32> = Channel::new();
    assert!(ch.is_empty());
    assert_eq!(ch.locate(code(0.0)), SamplePoint::Empty);
    assert_eq!(ch.time_span(), None);
}

#[test]
fn test_channel_single_keyframe() {
    let mut ch = Channel::new();
    ch.add_keyframe(code(0.0), 5.0f32, Interpolation::Linear);
    assert_eq!(ch.keyframe(0).value, 5.0);
    assert_eq!(ch.locate(code(0.0)), SamplePoint::Hold(0));
    assert_eq!(ch.locate(code(1.0)), SamplePoint::Hold(0));
    assert_eq!(ch.locate(code(-1.0)), SamplePoint::Hold(0));
}

#[test]
fn test_channel_clamp_before_and_after() {
    let mut ch = Channel::new();
    ch.add_keyframe(code(1.0), 5.0f32, Interpolation::Linear);
    ch.add_keyframe(code(2.0), 10.0f32, Interpolation::Linear);
    assert_eq!(ch.keyframe(0).value, 5.0);
    assert_eq!(ch.keyframe(1).value, 10.0);
    assert_eq!(ch.locate(code(0.0)), SamplePoint::Hold(0));
    assert_eq!(ch.locate(code(1.0)), SamplePoint::Hold(0));
    assert_eq!(ch.locate(code(3.0)), SamplePoint::Hold(1));
    assert_eq!(ch.locate(code(2.0)), SamplePoint::Hold(1));
    assert_eq!(ch.locate(code(1.5)), SamplePoint::Segment(0));
}

#[test]
fn sample_finds_first_containing_span() {
    let mut ch = Channel::new();
    for (t, v) in [(0.0f32, 0), (1.0, 1), (1.0, 2), (4.0, 3)] {
        ch.add_keyframe(code(t), v, Interpolation::Smooth);
    }
    assert_eq!(ch.locate(code(0.5)), SamplePoint::Segment(0));
    assert_eq!(ch.locate(code(1.0)), SamplePoint::Segment(0));
    assert_eq!(ch.locate(code(3.0)), SamplePoint::Segment(2));
}

#[test]
fn animation_starts_empty() {
    let anim = Animation::new("orbit");
    assert_eq!(anim.name, "orbit");
    assert!(!anim.looping);
    assert!(anim.position.is_empty());
    assert!(anim.rotation.is_empty());
    assert!(anim.scale.is_empty());
}

#[test]
fn nan_times_code_above_every_time() {
    let neg_nan = f32::from_bits(0xFFC0_0000);
    let pos_nan = f32::from_bits(0x7FC0_0000);
    assert!(code(neg_nan) > code(f32::INFINITY));
    assert!(code(pos_nan) > code(f32::INFINITY));
    assert_eq!(code(neg_nan), code(pos_nan));
    assert_eq!(time_bits(code(neg_nan)), 0x7FC0_0000);
}

#[test]
fn nan_sample_time_holds_the_last_keyframe() {
    let mut ch = Channel::new();
    ch.add_keyframe(code(0.0), 0.0f32, Interpolation::Linear);
    ch.add_keyframe(code(1.0), 10.0f32, Interpolation::Linear);
    assert_eq!(ch.locate(code(f32::from_bits(0xFFC0_0000))), SamplePoint::Hold(1));
    assert_eq!(ch.locate(code(f32::NAN)), SamplePoint::Hold(1));
}
