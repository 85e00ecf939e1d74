use std::f32::consts::TAU;

use pulseseek::fft_bank::{
    frame_fingerprint, frame_is_finite, supported_fft_size, FftBank, FftBranchKey, FftError,
    FftStreamId, FftSubscriptionId, FrameAdmission, WindowFunction,
};

const SAMPLE_RATE: u32 = 48_000;
const SUPPORTED_FFT_SIZES: [usize; 4] = [2_048, 4_096, 8_192, 16_384];

fn bank() -> FftBank {
    FftBank::new(FftStreamId::new(7))
}

fn stereo_sines(size: usize, left_amplitude: f32, right_amplitude: f32, inverted: bool) -> Vec<f32> {
    (0..size)
        .flat_map(|index| {
            let phase = (TAU * 32.0 * index as f32 / size as f32).sin();
            let right_sign = if inverted { -1.0 } else { 1.0 };
            [left_amplitude * phase, right_sign * right_amplitude * phase]
        })
        .collect()
}

fn bits(samples: &[f32]) -> Vec<u32> {
    samples.iter().map(|sample| sample.to_bits()).collect()
}

/// Offers a frame and records its transform when the bank asks for one.
fn process(
    bank: &mut FftBank,
    id: FftSubscriptionId,
    frame_id: u64,
    samples: &[f32],
    sample_rate: u32,
) -> Result<(), FftError> {
    match bank.process_frame(id, frame_id, &bits(samples), sample_rate)? {
        FrameAdmission::AlreadyTransformed => Ok(()),
        FrameAdmission::Transform { key, fingerprint } => {
            assert!(bank.record_transform(key, frame_id, sample_rate, fingerprint));
            Ok(())
        },
    }
}

#[test]
fn stream_identity_is_explicit_for_overlapping_frame_sequences() {
    let mut source = FftBank::new(FftStreamId::new(1));
    let mut monitor = FftBank::new(FftStreamId::new(2));
    let key = FftBranchKey::new(2_048, WindowFunction::Hann);
    let source_subscription = source.subscribe(key).unwrap();
    let monitor_subscription = monitor.subscribe(key).unwrap();

    process(&mut source, source_subscription.id(), 1, &stereo_sines(2_048, 0.25, 0.5, false), SAMPLE_RATE)
        .unwrap();
    process(&mut monitor, monitor_subscription.id(), 1, &stereo_sines(2_048, 0.75, 0.1, false), SAMPLE_RATE)
        .unwrap();

    assert_eq!(source.analysis(source_subscription.id()).unwrap().stream_id(), FftStreamId::new(1));
    assert_eq!(monitor.analysis(monitor_subscription.id()).unwrap().stream_id(), FftStreamId::new(2));
}

#[test]
fn analysis_exposes_frame_identity_and_sample_rate_transitions() {
    let mut bank = bank();
    let subscription = bank.subscribe(FftBranchKey::new(2_048, WindowFunction::Hann)).unwrap();
    let samples = stereo_sines(2_048, 0.25, 0.5, false);

    process(&mut bank, subscription.id(), 41, &samples, 44_100).unwrap();
    let first = bank.analysis(subscription.id()).unwrap();
    assert_eq!(first.frame_id(), 41);
    assert_eq!(first.sample_rate(), 44_100);

    process(&mut bank, subscription.id(), 42, &samples, 96_000).unwrap();
    let second = bank.analysis(subscription.id()).unwrap();
    assert_eq!(second.frame_id(), 42);
    assert_eq!(second.sample_rate(), 96_000);
}

#[test]
fn supports_all_normative_sizes_concurrently() {
    let mut bank = bank();
    let subscriptions: Vec<_> = SUPPORTED_FFT_SIZES
        .into_iter()
        .map(|size| bank.subscribe(FftBranchKey::new(size, WindowFunction::Hann)).unwrap())
        .collect();

    assert_eq!(bank.active_branch_count(), 4);
    assert_eq!(bank.active_plan_count(), 8);
    for (size, subscription) in SUPPORTED_FFT_SIZES.into_iter().zip(&subscriptions) {
        process(&mut bank, subscription.id(), size as u64, &stereo_sines(size, 0.25, 0.5, false), SAMPLE_RATE)
            .unwrap();
        let frame = bank.analysis(subscription.id()).unwrap();
        assert_eq!(frame.fft_size(), size);
        assert_eq!(frame.window(), WindowFunction::Hann);
    }
}

#[test]
fn compatible_subscribers_reuse_branch_until_last_release() {
    let mut bank = bank();
    let key = FftBranchKey::new(4_096, WindowFunction::Hann);
    let first = bank.subscribe(key).unwrap();
    let second = bank.subscribe(key).unwrap();

    assert_eq!(first.branch_id(), second.branch_id());
    assert_eq!(bank.active_branch_count(), 1);
    assert_eq!(bank.consumer_count(key), 2);
    assert!(bank.unsubscribe(first.id()));
    assert_eq!(bank.active_branch_count(), 1);
    assert_eq!(bank.consumer_count(key), 1);
    assert!(bank.unsubscribe(second.id()));
    assert_eq!(bank.active_branch_count(), 0);
    assert_eq!(bank.active_plan_count(), 0);
    assert!(!bank.unsubscribe(second.id()));
}

#[test]
fn compatible_subscribers_transform_shared_frame_once() {
    let mut bank = bank();
    let key = FftBranchKey::new(2_048, WindowFunction::Hann);
    let first = bank.subscribe(key).unwrap();
    let second = bank.subscribe(key).unwrap();
    let samples = stereo_sines(2_048, 0.25, 0.5, false);

    process(&mut bank, first.id(), 42, &samples, SAMPLE_RATE).unwrap();
    assert_eq!(
        bank.process_frame(second.id(), 42, &bits(&samples), SAMPLE_RATE),
        Ok(FrameAdmission::AlreadyTransformed)
    );
    process(&mut bank, second.id(), 42, &samples, SAMPLE_RATE).unwrap();

    assert_eq!(bank.branch_transform_count(key), 1);
    assert_eq!(bank.analysis(first.id()).unwrap().frame_id(), 42);
    assert_eq!(bank.analysis(second.id()).unwrap().frame_id(), 42);
}

#[test]
fn rejects_conflicting_or_stale_frame_identity_without_changing_result() {
    let mut bank = bank();
    let key = FftBranchKey::new(2_048, WindowFunction::Hann);
    let subscription = bank.subscribe(key).unwrap();
    let first = stereo_sines(2_048, 0.25, 0.5, false);
    let conflicting = stereo_sines(2_048, 0.75, 0.1, false);

    process(&mut bank, subscription.id(), 42, &first, SAMPLE_RATE).unwrap();
    assert_eq!(
        process(&mut bank, subscription.id(), 42, &conflicting, SAMPLE_RATE),
        Err(FftError::ConflictingFrameIdentity { frame_id: 42 })
    );
    assert_eq!(
        process(&mut bank, subscription.id(), 41, &first, SAMPLE_RATE),
        Err(FftError::StaleFrame { latest: 42, received: 41 })
    );
    assert_eq!(bank.analysis(subscription.id()).unwrap().frame_id(), 42);
    assert_eq!(bank.branch_transform_count(key), 1);
}

#[test]
fn validates_cached_frame_input_and_preserves_previous_result_after_failure() {
    let mut bank = bank();
    let subscription = bank.subscribe(FftBranchKey::new(2_048, WindowFunction::Hann)).unwrap();
    let first = stereo_sines(2_048, 0.25, 0.5, false);
    process(&mut bank, subscription.id(), 42, &first, SAMPLE_RATE).unwrap();
    let mut invalid = stereo_sines(2_048, 0.75, 0.1, false);
    invalid[1] = f32::NAN;

    assert_eq!(process(&mut bank, subscription.id(), 43, &invalid, SAMPLE_RATE), Err(FftError::NonFiniteInput));
    assert_eq!(
        process(&mut bank, subscription.id(), 42, &[0.0; 2_048], SAMPLE_RATE),
        Err(FftError::InterleavedFrameSizeMismatch { expected: 4_096, actual: 2_048 })
    );
    let analysis = bank.analysis(subscription.id()).unwrap();
    assert_eq!(analysis.frame_id(), 42);
    assert_eq!(analysis.sample_rate(), SAMPLE_RATE);
}

#[test]
fn incompatible_size_or_window_creates_smallest_branch() {
    let mut bank = bank();
    let hann = bank.subscribe(FftBranchKey::new(2_048, WindowFunction::Hann)).unwrap();
    let hamming = bank.subscribe(FftBranchKey::new(2_048, WindowFunction::Hamming)).unwrap();
    let larger = bank.subscribe(FftBranchKey::new(4_096, WindowFunction::Hann)).unwrap();

    assert_ne!(hann.branch_id(), hamming.branch_id());
    assert_ne!(hann.branch_id(), larger.branch_id());
    assert_eq!(bank.active_branch_count(), 3);
}

#[test]
fn rejects_invalid_frames_and_stale_subscriptions() {
    let mut bank = bank();
    let subscription = bank.subscribe(FftBranchKey::new(2_048, WindowFunction::Hann)).unwrap();

    assert!(matches!(bank.analysis(subscription.id()), Err(FftError::AnalysisUnavailable)));
    assert!(matches!(
        process(&mut bank, subscription.id(), 1, &[0.0; 2_048], SAMPLE_RATE),
        Err(FftError::InterleavedFrameSizeMismatch { expected: 4_096, actual: 2_048 })
    ));
    assert!(bank.unsubscribe(subscription.id()));
    assert!(matches!(
        process(&mut bank, subscription.id(), 2, &[0.0; 4_096], SAMPLE_RATE),
        Err(FftError::UnknownSubscription)
    ));
    assert!(matches!(bank.analysis(subscription.id()), Err(FftError::UnknownSubscription)));
}

#[test]
fn unsupported_size_is_refused_and_consumes_a_branch_id() {
    let mut bank = bank();
    assert_eq!(
        bank.subscribe(FftBranchKey::new(1_024, WindowFunction::Hann)),
        Err(FftError::UnsupportedKernelSize { requested: 1_024 })
    );
    assert_eq!(bank.active_branch_count(), 0);
    let first = bank.subscribe(FftBranchKey::new(2_048, WindowFunction::Hann)).unwrap();
    let second = bank.subscribe(FftBranchKey::new(2_048, WindowFunction::FlatTop)).unwrap();
    assert_ne!(first.branch_id(), second.branch_id());
}

#[test]
fn zero_sample_rate_is_refused() {
    let mut bank = bank();
    let subscription = bank.subscribe(FftBranchKey::new(2_048, WindowFunction::Hann)).unwrap();
    assert_eq!(
        process(&mut bank, subscription.id(), 1, &[0.0; 4_096], 0),
        Err(FftError::InvalidSampleRate)
    );
}

#[test]
fn fingerprint_folds_sample_bits_from_the_sample_rate() {
    assert_eq!(frame_fingerprint(&vec![], 48_000), 48_000);
    assert_eq!(frame_fingerprint(&vec![1], 2), 2 * 1_099_511_628_211 + 1);
    let folded = 5u64.wrapping_mul(1_099_511_628_211).wrapping_add(3).wrapping_mul(1_099_511_628_211).wrapping_add(4);
    assert_eq!(frame_fingerprint(&vec![3, 4], 5), folded);
}

#[test]
fn finiteness_is_read_from_the_exponent_bits() {
    assert!(frame_is_finite(&bits(&[0.0, -1.5, f32::MAX, f32::MIN_POSITIVE])));
    assert!(!frame_is_finite(&bits(&[0.0, f32::INFINITY])));
    assert!(!frame_is_finite(&bits(&[f32::NEG_INFINITY])));
    assert!(!frame_is_finite(&bits(&[f32::NAN])));
    assert!(frame_is_finite(&vec![]));
}

#[test]
fn kernel_sizes_are_the_supported_powers_of_two() {
    for size in SUPPORTED_FFT_SIZES {
        assert!(supported_fft_size(size));
    }
    assert!(!supported_fft_size(1_024));
    assert!(!supported_fft_size(32_768));
    assert!(!supported_fft_size(3_000));
}

#[test]
fn consumer_and_transform_counts_of_an_unknown_key_are_zero() {
    let bank = bank();
    let key = FftBranchKey::new(2_048, WindowFunction::Rectangular);
    assert_eq!(bank.consumer_count(key), 0);
    assert_eq!(bank.branch_transform_count(key), 0);
    assert_eq!(key.fft_size(), 2_048);
    assert_eq!(key.window(), WindowFunction::Rectangular);
}

#[test]
fn subscription_ids_are_never_handed_out_twice() {
    let mut bank = bank();
    let key = FftBranchKey::new(2_048, WindowFunction::Hann);
    let first = bank.subscribe(key).unwrap();
    let second = bank.subscribe(key).unwrap();
    assert_ne!(first.id(), second.id());
    assert!(bank.unsubscribe(first.id()));
    let third = bank.subscribe(key).unwrap();
    assert_ne!(third.id(), first.id());
    assert_ne!(third.id(), second.id());
    assert!(!bank.unsubscribe(first.id()));
}
