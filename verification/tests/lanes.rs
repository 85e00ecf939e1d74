use pulseseek::lanes::{
    AnalysisLane, InputStep, LaneError, LaneOutput, LanePolicy, LaneValidity, RecvStep,
    SubmissionResult,
};

fn take(lane: &mut AnalysisLane<u64, u64>) -> u64 {
    match lane.receive_input() {
        InputStep::Block(block) => block,
        InputStep::Wait => panic!("worker would wait"),
        InputStep::Stop => panic!("worker would stop"),
    }
}

fn work(lane: &mut AnalysisLane<u64, u64>, block: u64) {
    let validity = lane.validity();
    lane.publish_output(LaneOutput { value: block, validity });
}

fn receive(lane: &mut AnalysisLane<u64, u64>) -> LaneOutput<u64> {
    match lane.recv_step() {
        RecvStep::Ready(output) => output,
        RecvStep::Wait => panic!("nothing ready"),
        RecvStep::Disconnected => panic!("disconnected"),
    }
}

#[test]
fn visual_lane_discards_stale_work_without_blocking_producer() {
    let mut lane = AnalysisLane::<u64, u64>::new(2, 2, LanePolicy::LatestOnly).unwrap();

    assert_eq!(lane.try_submit(0), SubmissionResult::Accepted);
    let first = take(&mut lane);
    assert_eq!(lane.try_submit(1), SubmissionResult::Accepted);
    assert_eq!(lane.try_submit(2), SubmissionResult::Accepted);
    assert_eq!(lane.try_submit(3), SubmissionResult::DroppedVisual);
    work(&mut lane, first);
    let latest = take(&mut lane);
    work(&mut lane, latest);

    let first = receive(&mut lane);
    let latest = receive(&mut lane);
    assert_eq!(first.value, 0);
    assert_eq!(latest.value, 3);
    assert_eq!(latest.validity, LaneValidity::Measured);
    assert_eq!(lane.diagnostics().visual_drops, 1);
    assert_eq!(lane.diagnostics().stale_visual_inputs, 1);
}

#[test]
fn continuous_saturation_marks_next_result_incomplete() {
    let mut lane = AnalysisLane::<u64, u64>::new(1, 4, LanePolicy::Continuous).unwrap();
    assert_eq!(lane.try_submit(0), SubmissionResult::Accepted);
    assert_eq!(lane.try_submit(1), SubmissionResult::ContinuousGap);
    let block = take(&mut lane);
    lane.observe_block(block, false);
    work(&mut lane, block);
    let output = receive(&mut lane);
    assert_eq!(output.value, 0);
    assert_eq!(output.validity, LaneValidity::Incomplete);
    assert_eq!(lane.diagnostics().continuous_gaps, 1);
}

#[test]
fn discontinuity_and_sequence_gap_mark_continuous_results_incomplete() {
    let mut lane = AnalysisLane::<u64, u64>::new(4, 4, LanePolicy::Continuous).unwrap();
    lane.observe_block(0, false);
    assert_eq!(lane.validity(), LaneValidity::Complete);
    lane.observe_block(1, false);
    assert_eq!(lane.validity(), LaneValidity::Complete);
    lane.observe_block(3, false);
    assert_eq!(lane.validity(), LaneValidity::Incomplete);
    assert_eq!(lane.diagnostics().continuous_gaps, 1);

    let mut lane = AnalysisLane::<u64, u64>::new(4, 4, LanePolicy::Continuous).unwrap();
    lane.observe_block(0, true);
    assert_eq!(lane.validity(), LaneValidity::Incomplete);
}

#[test]
fn sequence_wraps_without_a_gap() {
    let mut lane = AnalysisLane::<u64, u64>::new(4, 4, LanePolicy::Continuous).unwrap();
    lane.observe_block(u64::MAX, false);
    lane.observe_block(0, false);
    assert_eq!(lane.validity(), LaneValidity::Complete);
}

#[test]
fn bounded_backpressure_returns_immediately_and_reports_depth() {
    let mut lane = AnalysisLane::<u64, u64>::new(2, 2, LanePolicy::Continuous).unwrap();
    assert_eq!(lane.try_submit(0), SubmissionResult::Accepted);
    assert_eq!(lane.try_submit(1), SubmissionResult::Accepted);
    assert_eq!(lane.diagnostics().input_depth, 2);
    assert_eq!(lane.diagnostics().input_high_water, 2);
    assert_eq!(lane.try_submit(2), SubmissionResult::ContinuousGap);
    assert_eq!(lane.diagnostics().input_depth, 2);
}

#[test]
fn dropping_last_receiver_stops_idle_worker() {
    let mut lane = AnalysisLane::<u64, u64>::new(2, 2, LanePolicy::Continuous).unwrap();
    lane.disconnect_receiver();
    assert!(matches!(lane.receive_input(), InputStep::Stop));
    assert_eq!(lane.try_submit(1), SubmissionResult::ReceiverGone);
}

#[test]
fn dropping_last_sender_stops_idle_worker_and_clears_input_depth() {
    let mut lane = AnalysisLane::<u64, u64>::new(2, 2, LanePolicy::Continuous).unwrap();
    assert!(matches!(lane.receive_input(), InputStep::Wait));
    lane.try_submit(1);
    lane.disconnect_sender();
    assert!(matches!(lane.receive_input(), InputStep::Block(1)));
    assert!(matches!(lane.receive_input(), InputStep::Stop));
    lane.finish_worker();
    assert_eq!(lane.diagnostics().input_depth, 0);
    assert!(matches!(lane.recv_step(), RecvStep::Disconnected));
}

#[test]
fn processor_panic_is_counted_and_marks_results_incomplete() {
    let mut lane = AnalysisLane::<u64, u64>::new(2, 2, LanePolicy::Continuous).unwrap();
    lane.record_panic();
    assert_eq!(lane.diagnostics().processor_panics, 1);
    assert_eq!(lane.validity(), LaneValidity::Incomplete);
    let sibling = AnalysisLane::<u64, u64>::new(2, 2, LanePolicy::Continuous).unwrap();
    assert_eq!(sibling.validity(), LaneValidity::Complete);
}

#[test]
fn capacities_must_be_positive() {
    assert!(matches!(AnalysisLane::<u64, u64>::new(0, 1, LanePolicy::Continuous), Err(LaneError::InvalidCapacity)));
    assert!(matches!(AnalysisLane::<u64, u64>::new(1, 0, LanePolicy::LatestOnly), Err(LaneError::InvalidCapacity)));
    assert!(AnalysisLane::<u64, u64>::new(1, 1, LanePolicy::LatestOnly).is_ok());
}

#[test]
fn explicit_shutdown_rejects_later_submissions() {
    let mut lane = AnalysisLane::<u64, u64>::new(2, 2, LanePolicy::LatestOnly).unwrap();
    lane.shutdown();
    assert_eq!(lane.try_submit(1), SubmissionResult::Shutdown);
    assert!(matches!(lane.receive_input(), InputStep::Stop));
}

#[test]
fn output_saturation_is_counted_and_depth_remains_bounded() {
    let mut lane = AnalysisLane::<u64, u64>::new(4, 1, LanePolicy::Continuous).unwrap();
    work(&mut lane, 1);
    work(&mut lane, 2);
    assert_eq!(lane.diagnostics().output_depth, 1);
    assert_eq!(lane.diagnostics().continuous_gaps, 1);
    let output = receive(&mut lane);
    assert_eq!(output.value, 1);
    assert!(lane.try_receive().is_none());
    assert_eq!(lane.policy(), LanePolicy::Continuous);
}

#[test]
fn latest_only_output_keeps_the_newest_result() {
    let mut lane = AnalysisLane::<u64, u64>::new(4, 1, LanePolicy::LatestOnly).unwrap();
    work(&mut lane, 1);
    work(&mut lane, 2);
    assert_eq!(lane.try_receive().unwrap().value, 2);
}

#[test]
fn dropping_receiver_makes_disconnection_observable() {
    let mut lane = AnalysisLane::<u64, u64>::new(1, 1, LanePolicy::Continuous).unwrap();
    lane.disconnect_receiver();
    assert_eq!(lane.try_submit(0), SubmissionResult::ReceiverGone);
    assert!(matches!(lane.receive_input(), InputStep::Stop));
}

#[test]
fn processor_panic_is_localized_and_sibling_lane_remains_healthy() {
    let mut lane = AnalysisLane::<u64, u64>::new(2, 2, LanePolicy::Continuous).unwrap();
    let mut sibling = AnalysisLane::<u64, u64>::new(1, 1, LanePolicy::LatestOnly).unwrap();
    assert_eq!(lane.try_submit(0), SubmissionResult::Accepted);
    assert_eq!(lane.try_submit(1), SubmissionResult::Accepted);
    assert_eq!(sibling.try_submit(9), SubmissionResult::Accepted);

    let failed = take(&mut lane);
    assert_eq!(failed, 0);
    lane.record_panic();
    let recovered = take(&mut lane);
    work(&mut lane, recovered);
    let output = receive(&mut lane);
    assert_eq!(output.value, 1);
    assert_eq!(output.validity, LaneValidity::Incomplete);
    assert_eq!(lane.diagnostics().processor_panics, 1);

    let block = take(&mut sibling);
    work(&mut sibling, block);
    let output = receive(&mut sibling);
    assert_eq!(output.value, 9);
    assert_eq!(output.validity, LaneValidity::Measured);
    assert_eq!(sibling.diagnostics().processor_panics, 0);
}

#[test]
fn diagnostics_stay_within_capacity_and_counters_only_grow() {
    let mut lane = AnalysisLane::<u64, u64>::new(1, 1, LanePolicy::LatestOnly).unwrap();
    let mut last = lane.diagnostics();
    for block in 0..5u64 {
        lane.try_submit(block);
        let now = lane.diagnostics();
        assert!(now.input_depth <= 1 && now.input_high_water <= 1);
        assert!(now.visual_drops >= last.visual_drops);
        last = now;
        let taken = take(&mut lane);
        work(&mut lane, taken);
        let now = lane.diagnostics();
        assert!(now.output_depth <= 1 && now.output_high_water <= 1);
        assert!(now.visual_drops >= last.visual_drops);
        last = now;
    }
    assert_eq!(lane.diagnostics().output_high_water, 1);
}
