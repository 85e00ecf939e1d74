use pulseseek::control::PlaybackControl;
use pulseseek::engine::{
    loop_region_contains_ms, region_length_samples, region_start_frames, saturating_mul,
    ChunkStart, EofAction, LoopRegion, ProducerCounters, ProductionError, PushOutcome,
};

const REGION: LoopRegion = LoopRegion { start_ms: 1_000, end_ms: 1_500 };

#[test]
fn region_arithmetic_converts_milliseconds_to_samples() {
    assert_eq!(region_length_samples(Some(REGION), 48_000, 2), 48_000);
    assert_eq!(region_length_samples(Some(REGION), 0, 2), 0);
    assert_eq!(region_length_samples(None, 48_000, 2), 0);
    assert_eq!(region_length_samples(Some(LoopRegion { start_ms: 5, end_ms: 1 }), 48_000, 2), 0);
    assert_eq!(region_start_frames(Some(REGION), 44_100), 44_100);
    assert_eq!(region_start_frames(None, 44_100), 0);
    assert_eq!(saturating_mul(u64::MAX, 2), u64::MAX);
    assert_eq!(saturating_mul(3, 4), 12);
}

#[test]
fn loop_region_is_half_open() {
    assert!(loop_region_contains_ms(Some(REGION), 1_000));
    assert!(loop_region_contains_ms(Some(REGION), 1_499));
    assert!(!loop_region_contains_ms(Some(REGION), 1_500));
    assert!(!loop_region_contains_ms(Some(REGION), 999));
    assert!(!loop_region_contains_ms(None, 1_200));
}

#[test]
fn pushes_are_bounded_by_the_free_ring_buffer() {
    let mut producer = ProducerCounters::new(8, 48_000, 2);
    assert_eq!(producer.push_buffered(5, 3), PushOutcome { pushed: 3, first_reset: None });
    assert_eq!(producer.push_buffered(2, 10), PushOutcome { pushed: 2, first_reset: None });
    assert_eq!(producer.frames_written(), 5);
}

#[test]
fn a_loop_region_stops_production_at_its_end() {
    let mut producer = ProducerCounters::new(100_000, 1_000, 1);
    producer.commit_loop_region(LoopRegion { start_ms: 0, end_ms: 10 }, 1);
    let control = PlaybackControl::new();
    assert!(producer.is_waiting_for_buffer_discard(&control));
    assert_eq!(producer.begin_chunk(&control, true, 100), ChunkStart::Finished(true));

    let mut producer = ProducerCounters::new(100_000, 1_000, 1);
    let mut control = PlaybackControl::new();
    let request = control.request_buffer_discard();
    producer.commit_loop_region(LoopRegion { start_ms: 0, end_ms: 10 }, request);
    control.acknowledge_buffer_discard();
    assert_eq!(producer.begin_chunk(&control, true, 100), ChunkStart::Read(10));
    assert_eq!(producer.push_buffered(25, 100), PushOutcome { pushed: 10, first_reset: None });
    assert_eq!(producer.begin_chunk(&control, true, 100), ChunkStart::Finished(false));
    assert_eq!(producer.push_buffered(5, 100), PushOutcome { pushed: 0, first_reset: None });
}

#[test]
fn invalid_decoder_frame_count_returns_error() {
    let mut producer = ProducerCounters::new(16, 48_000, 2);
    assert_eq!(
        producer.finish_chunk(20, 16, 16),
        Err(ProductionError::InvalidFrameCount { returned: 20, capacity: 16 })
    );
    assert_eq!(producer.finish_chunk(0, 16, 16), Ok((false, PushOutcome { pushed: 0, first_reset: None })));
    assert!(producer.is_finished(0));
    assert!(!producer.is_finished(3));
}

#[test]
fn end_of_file_without_loop_completes_once_the_buffer_drains() {
    let mut producer = ProducerCounters::new(16, 48_000, 2);
    assert_eq!(producer.eof_action(false, 0), EofAction::AwaitCommand);
    producer.finish_chunk(0, 16, 16).unwrap();
    assert_eq!(producer.eof_action(false, 4), EofAction::AwaitCommand);
    assert_eq!(producer.eof_action(false, 0), EofAction::Complete);
}

#[test]
fn empty_loop_fails_instead_of_spinning_forever() {
    let mut producer = ProducerCounters::new(16, 48_000, 2);
    producer.finish_chunk(0, 16, 16).unwrap();
    assert_eq!(producer.eof_action(true, 0), EofAction::FailNoFrames);
    assert_eq!(producer.eof_action(true, 2), EofAction::Yield);
}

#[test]
fn looping_a_short_file_replays_its_cached_cycle() {
    let mut producer = ProducerCounters::new(16, 48_000, 2);
    let (more, outcome) = producer.finish_chunk(8, 16, 16).unwrap();
    assert!(more);
    assert_eq!(outcome.pushed, 8);
    producer.finish_chunk(0, 16, 16).unwrap();
    assert!(producer.has_cached_cycle());
    assert_eq!(producer.eof_action(true, 0), EofAction::ReplayCycle);
}

#[test]
fn looping_a_long_file_restarts_it() {
    let mut producer = ProducerCounters::new(4, 48_000, 2);
    producer.finish_chunk(8, 16, 16).unwrap();
    producer.finish_chunk(0, 16, 16).unwrap();
    assert!(!producer.has_cached_cycle());
    assert_eq!(producer.eof_action(true, 0), EofAction::RestartCurrent);
    producer.restart_current();
    assert!(!producer.is_finished(0));
}

#[test]
fn ab_repeat_seek_before_region_disables_loop() {
    let mut producer = ProducerCounters::new(1_000, 1_000, 1);
    producer.commit_loop_region(REGION, 0);
    assert_ne!(producer.eof_action(false, 0), EofAction::AwaitCommand);
    producer.after_user_seek(500);
    assert_eq!(producer.eof_action(false, 0), EofAction::AwaitCommand);
    assert_eq!(producer.push_buffered(900, 1_000).pushed, 900);
}

#[test]
fn ab_repeat_seek_into_region_keeps_looping() {
    let mut producer = ProducerCounters::new(1_000, 1_000, 1);
    producer.commit_loop_region(REGION, 0);
    producer.after_user_seek(1_200);
    assert_ne!(producer.eof_action(false, 0), EofAction::AwaitCommand);
    // 300 ms of the 500 ms region are left at one frame per millisecond.
    assert_eq!(producer.push_buffered(900, 1_000).pushed, 300);
}

#[test]
fn ab_repeat_wraps_at_region_end_without_advancing() {
    let mut producer = ProducerCounters::new(100, 1_000, 1);
    producer.commit_loop_region(LoopRegion { start_ms: 0, end_ms: 4 }, 0);
    let control = PlaybackControl::new();
    assert_eq!(producer.begin_chunk(&control, true, 100), ChunkStart::Read(4));
    let (more, outcome) = producer.finish_chunk(4, 4, 100).unwrap();
    assert!(!more);
    assert_eq!(outcome.pushed, 4);
    assert_eq!(producer.eof_action(false, 0), EofAction::ReplayCycle);
    let plan = producer.replay_cached_cycle(6);
    assert_eq!(plan, vec![(0, Some(0)), (1, None), (2, None), (3, None), (0, Some(0)), (1, None)]);
}

#[test]
fn region_restart_sends_the_clock_back_to_its_start() {
    let mut producer = ProducerCounters::new(2, 1_000, 1);
    producer.commit_loop_region(REGION, 0);
    assert!(producer.restart_region(1_000));
    let outcome = producer.push_buffered(1, 2);
    assert_eq!(outcome, PushOutcome { pushed: 1, first_reset: Some(1_000) });
    producer.clear_loop_region();
    assert!(!producer.restart_region(0));
}

#[test]
fn resampled_samples_count_toward_the_cycle() {
    let mut producer = ProducerCounters::new(4, 1_000, 1);
    let mut control = PlaybackControl::new();
    let request = control.request_buffer_discard();
    assert_eq!(control.discard_request(), request);
    producer.commit_loop_region(LoopRegion { start_ms: 0, end_ms: 2 }, request);
    control.acknowledge_buffer_discard();
    assert_eq!(producer.loop_region(), Some(LoopRegion { start_ms: 0, end_ms: 2 }));
    assert_eq!(producer.push_resampled(0), PushOutcome { pushed: 0, first_reset: None });
    assert_eq!(producer.eof_action(false, 0), EofAction::FailNoFrames);
    assert_eq!(producer.push_resampled(3), PushOutcome { pushed: 1, first_reset: None });
    assert_eq!(producer.cache_len(), 1);
    assert!(!producer.boundary_reached());
    assert_eq!(producer.push_resampled(3), PushOutcome { pushed: 1, first_reset: None });
    assert!(producer.boundary_reached());
    assert_eq!(producer.eof_action(false, 0), EofAction::ReplayCycle);
    assert_eq!(producer.push_resampled(3), PushOutcome { pushed: 0, first_reset: None });
    assert_eq!(producer.frames_written(), 2);
}

#[test]
fn end_of_stream_and_decoder_position_are_recorded() {
    let mut producer = ProducerCounters::new(4, 48_000, 2);
    assert!(!producer.is_eof());
    assert_eq!(producer.sample_rate(), 48_000);
    producer.set_decoder_position(1_250);
    assert_eq!(producer.decoder_position_ms(), 1_250);
    producer.mark_eof();
    assert!(producer.is_eof());
    assert!(producer.is_finished(0));
    assert!(!producer.is_finished(1));
}
