use pulseseek::control::{
    monitor_batch_full, plan_callback, position_reset, CallbackMemory, CallbackStep, FramePlan, PlaybackControl, Terminal,
    TrackChange,
};

fn change(path: &str) -> TrackChange {
    TrackChange { path: path.to_string(), duration_ms: Some(1_000) }
}

#[test]
fn new_session_is_active_and_unpaused() {
    let control = PlaybackControl::new();
    assert!(!control.is_paused());
    assert!(!control.is_stopped());
    assert!(!control.is_completed());
    assert_eq!(control.terminal(), Terminal::Active);
    assert_eq!(control.position_frames(), 0);
    assert_eq!(control.generation(), 0);
    assert!(control.is_seek_fade_complete());
}

#[test]
fn pause_and_resume_toggle_consumption() {
    let mut control = PlaybackControl::new();
    control.pause();
    assert!(control.is_paused());
    control.resume();
    assert!(!control.is_paused());
}

#[test]
fn outcome_is_claimed_once() {
    let mut control = PlaybackControl::new();
    assert!(control.claim_completion());
    assert!(!control.claim_failure());
    assert!(!control.claim_completion());
    assert!(control.is_completed());
    assert!(control.is_stopped());
    control.stop();
    assert_eq!(control.terminal(), Terminal::Completed);
}

#[test]
fn stopping_an_active_session_prevents_later_claims() {
    let mut control = PlaybackControl::new();
    control.stop();
    assert_eq!(control.terminal(), Terminal::Stopped);
    assert!(!control.claim_completion());
    assert!(!control.claim_failure());
    control.stop();
    assert_eq!(control.terminal(), Terminal::Stopped);
}

#[test]
fn failure_claim_ends_the_session() {
    let mut control = PlaybackControl::new();
    assert!(control.claim_failure());
    assert_eq!(control.terminal(), Terminal::Failed);
    assert!(control.is_stopped());
}

#[test]
fn completed_seek_refuses_samples_of_the_old_generation() {
    let mut control = PlaybackControl::new();
    assert!(control.accept_sample(0, None, None));
    control.begin_seek();
    assert!(control.is_seeking());
    control.complete_seek();
    assert!(!control.is_seeking());
    assert_eq!(control.generation(), 1);
    assert!(!control.accept_sample(0, Some(5), None));
    assert_eq!(control.position_frames(), 0);
    assert!(control.accept_sample(1, Some(5), None));
    assert_eq!(control.position_frames(), 5);
}

#[test]
fn user_seeks_are_counted_and_cancelled_seeks_keep_the_generation() {
    let mut control = PlaybackControl::new();
    control.begin_seek();
    control.complete_user_seek();
    assert_eq!(control.seek_generation(), 1);
    assert_eq!(control.generation(), 1);
    control.begin_seek();
    control.cancel_seek();
    assert!(!control.is_seeking());
    assert_eq!(control.generation(), 1);
}

#[test]
fn seek_fades_out_only_audible_output() {
    let mut control = PlaybackControl::new();
    control.begin_seek();
    assert!(control.is_seek_fade_complete());
    assert!(!control.take_fade_request());

    let mut control = PlaybackControl::new();
    control.advance_position();
    assert!(control.is_output_active());
    control.begin_seek();
    assert!(!control.is_seek_fade_complete());
    assert!(control.take_fade_request());
    assert!(!control.take_fade_request());
    control.finish_fade();
    assert!(control.is_seek_fade_complete());
    assert!(!control.is_output_active());
}

#[test]
fn buffer_discard_is_acknowledged_once() {
    let mut control = PlaybackControl::new();
    assert!(!control.acknowledge_buffer_discard());
    let request = control.request_buffer_discard();
    assert_eq!(request, 1);
    assert!(!control.buffer_discarded(request));
    assert!(control.acknowledge_buffer_discard());
    assert!(control.buffer_discarded(request));
    assert!(!control.acknowledge_buffer_discard());
}

#[test]
fn track_changes_wait_for_their_sample_and_leave_in_order() {
    let mut control = PlaybackControl::new();
    let first = control.publish_track_change(change("/a.wav"));
    let second = control.publish_track_change(change("/b.wav"));
    assert_eq!((first, second), (1, 2));
    assert!(control.take_track_change().is_none());
    assert!(control.accept_sample(0, None, Some(first)));
    assert_eq!(control.reached_track_change(), 1);
    assert_eq!(control.take_track_change().unwrap().path, "/a.wav");
    assert!(control.take_track_change().is_none());
    assert!(control.accept_sample(0, None, Some(second)));
    assert_eq!(control.take_track_change().unwrap().path, "/b.wav");
    assert!(control.take_track_change().is_none());
}

#[test]
fn clock_advances_and_can_be_reset() {
    let mut control = PlaybackControl::new();
    control.advance_position();
    control.advance_position();
    assert_eq!(control.position_frames(), 2);
    control.set_position_frames(48_000);
    assert_eq!(control.position_frames(), 48_000);
}

#[test]
fn callback_acknowledges_discards_before_anything_else() {
    let mut control = PlaybackControl::new();
    assert_eq!(control.begin_callback(0, 2), CallbackStep::Idle);
    assert_eq!(control.begin_callback(2, 2), CallbackStep::Play);
    control.request_buffer_discard();
    control.pause();
    assert_eq!(control.begin_callback(2, 2), CallbackStep::Discard);
    assert_eq!(control.begin_callback(2, 2), CallbackStep::Silence);
    control.resume();
    control.begin_seek();
    assert_eq!(control.begin_callback(2, 1), CallbackStep::SeekFade);
    control.complete_seek();
    control.stop();
    assert_eq!(control.begin_callback(1, 2), CallbackStep::Silence);
}

#[test]
fn repeated_pause_is_idempotent() {
    let mut control = PlaybackControl::new();
    control.pause();
    control.pause();
    assert!(control.is_paused());
    control.resume();
    assert!(!control.is_paused());
}

#[test]
fn stop_race_does_not_emit_completion() {
    let mut control = PlaybackControl::new();
    control.stop();
    assert!(!control.claim_completion());
    assert_eq!(control.terminal(), Terminal::Stopped);
}

#[test]
fn callback_plans_take_whole_source_frames_until_starved() {
    let plan = plan_callback(5, 2, 2, 4, false);
    assert_eq!(plan, vec![FramePlan::Play, FramePlan::Play, FramePlan::Silence, FramePlan::Silence]);
    assert_eq!(plan_callback(8, 2, 1, 3, true), vec![FramePlan::Silence; 3]);
    assert_eq!(plan_callback(0, 1, 2, 2, false), vec![FramePlan::Silence, FramePlan::Silence]);
    assert_eq!(plan_callback(100, 1, 2, 2, false), vec![FramePlan::Play, FramePlan::Play]);
    assert!(monitor_batch_full(8_190, 4, 8_192));
    assert!(!monitor_batch_full(8_188, 4, 8_192));
    assert!(monitor_batch_full(9_000, 1, 8_192));
}

#[test]
fn a_seek_is_taken_up_once_by_the_callback() {
    let mut memory = CallbackMemory::new();
    let start = memory.begin(0, 0);
    assert!(!start.rotate_source && !start.new_analysis_session && !start.replaced_buffer && !start.discard_buffer);

    let start = memory.begin(0, 1);
    assert!(start.new_analysis_session && start.replaced_buffer && start.discard_buffer);
    assert!(!start.rotate_source);
    let start = memory.begin(0, 1);
    assert!(!start.new_analysis_session && !start.replaced_buffer && !start.discard_buffer);

    // A fade-out that already cleared the buffer leaves nothing to discard.
    assert!(memory.fade_finished());
    assert!(!memory.fade_finished());
    let start = memory.begin(2, 1);
    assert!(start.rotate_source && !start.discard_buffer);
    assert!(!memory.frame_track_change(2));
    assert!(memory.frame_track_change(3));
}

#[test]
fn a_position_jump_hands_on_a_non_empty_batch() {
    assert!(position_reset(10, 500, 4));
    assert!(!position_reset(10, 500, 0));
    assert!(!position_reset(10, 10, 4));
}

#[test]
fn a_session_sends_one_terminal_event() {
    let mut control = PlaybackControl::new();
    assert_eq!(control.settle_failure(), Some(pulseseek::control::PlaybackEvent::Failed));
    assert_eq!(control.settle_completion(), None);
    assert_eq!(control.settle_failure(), None);

    let mut control = PlaybackControl::new();
    control.stop();
    assert_eq!(control.settle_completion(), None);
    assert_eq!(control.settle_failure(), None);

    let mut control = PlaybackControl::new();
    assert_eq!(control.settle_completion(), Some(pulseseek::control::PlaybackEvent::Completed));
    assert_eq!(control.terminal(), Terminal::Completed);
}
