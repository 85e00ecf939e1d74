use pulseseek::resample::ResampleAccount;

#[test]
fn stereo_source_position_counts_frames_once() {
    let mut converter = ResampleAccount::new(2, 1_000, 2_000).unwrap();
    converter.record_input(500);

    assert_eq!(converter.source_position_ms(), 500);
}

#[test]
fn resampling_rejects_invalid_configuration() {
    assert!(ResampleAccount::new(0, 44_100, 48_000).is_none());
    assert!(ResampleAccount::new(2, 0, 48_000).is_none());
    assert!(ResampleAccount::new(2, 44_100, 0).is_none());
    assert!(ResampleAccount::new(2, 44_100, 48_000).is_some());
}

#[test]
fn output_is_held_to_what_the_input_owes() {
    let mut converter = ResampleAccount::new(2, 44_100, 48_000).unwrap();
    converter.record_input(441);
    assert_eq!(converter.admit_output(2_000), 960);
    assert_eq!(converter.admit_output(10), 0);
    converter.record_input(441);
    assert_eq!(converter.admit_output(500), 500);
    assert_eq!(converter.admit_output(1_000), 460);
}

#[test]
fn partial_interleaved_frames_are_detected() {
    let converter = ResampleAccount::new(2, 44_100, 48_000).unwrap();
    assert!(converter.whole_frames(512));
    assert!(!converter.whole_frames(511));
}

#[test]
fn reset_starts_the_count_over() {
    let mut converter = ResampleAccount::new(1, 48_000, 48_000).unwrap();
    converter.record_input(48_000);
    assert_eq!(converter.source_position_ms(), 1_000);
    converter.reset();
    assert_eq!(converter.source_position_ms(), 0);
    assert_eq!(converter.admit_output(5), 0);
}

#[test]
fn huge_positions_saturate_before_dividing() {
    let mut converter = ResampleAccount::new(1, 1_000, 1_000).unwrap();
    converter.record_input(u64::MAX);
    assert_eq!(converter.source_position_ms(), u64::MAX / 1_000);
}
