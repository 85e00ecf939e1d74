use pulseseek::events::{
    AnalysisEventRuntime, DeliveryPolicy, EventEnvelope, EventValidity, MeteringPublishResult,
};

const SPECTRUM: usize = 0;
const LEVELS: usize = 1;
const LOUDNESS: usize = 2;
const DIAGNOSTICS: usize = 3;
const SESSION: usize = 4;

fn runtime(default_capacity: usize) -> AnalysisEventRuntime {
    let policies = vec![
        DeliveryPolicy::Cadenced { min_hz: 15, max_hz: 60 },
        DeliveryPolicy::LatestOnly,
        DeliveryPolicy::ContinuousAndDisplay,
        DeliveryPolicy::OnChange,
        DeliveryPolicy::OnChange,
    ];
    AnalysisEventRuntime::new(default_capacity, &policies)
}

fn event(family: usize, sequence: u64) -> EventEnvelope {
    EventEnvelope::new(family, sequence, sequence, EventValidity::Measured)
}

#[test]
fn slow_family_does_not_block_unrelated_family() {
    let mut runtime = runtime(1);
    let _slow = runtime.subscribe(SPECTRUM, 1).unwrap();
    let fast = runtime.subscribe(LEVELS, 1).unwrap();
    assert!(runtime.publish(event(SPECTRUM, 1)).is_accepted());
    assert!(runtime.publish(event(SPECTRUM, 2)).is_dropped());
    assert!(runtime.publish(event(LEVELS, 1)).is_accepted());
    assert_eq!(runtime.try_receive(&fast).unwrap().sequence(), 1);
}

#[test]
fn continuous_overflow_marks_only_family_incomplete() {
    let mut runtime = runtime(1);
    let _continuous = runtime.subscribe(LOUDNESS, 1).unwrap();
    let _other = runtime.subscribe(LEVELS, 1).unwrap();
    runtime.publish(event(LOUDNESS, 1));
    assert!(runtime.publish(event(LOUDNESS, 2)).is_gap());
    assert_eq!(runtime.family_validity(LOUDNESS), EventValidity::Incomplete);
    assert_eq!(runtime.family_validity(LEVELS), EventValidity::Measured);
}

#[test]
fn unsubscribe_is_idempotent_and_receiver_drop_disconnects() {
    let mut runtime = runtime(2);
    let receiver = runtime.subscribe(DIAGNOSTICS, 2).unwrap();
    let id = receiver.id();
    assert!(runtime.unsubscribe(id));
    assert!(!runtime.unsubscribe(id));
    assert!(!runtime.publish(event(DIAGNOSTICS, 1)).is_accepted());
}

#[test]
fn receiver_supports_explicit_unsubscribe() {
    let mut runtime = runtime(1);
    let mut receiver = runtime.subscribe(SESSION, 1).unwrap();
    assert!(runtime.release(&mut receiver));
    assert!(!runtime.publish(event(SESSION, 1)).is_accepted());
}

#[test]
fn runtime_unsubscribe_then_receiver_drop_preserves_other_receiver() {
    let mut runtime = runtime(2);
    let mut first = runtime.subscribe(LEVELS, 2).unwrap();
    let second = runtime.subscribe(LEVELS, 2).unwrap();
    let first_id = first.id();
    assert!(runtime.unsubscribe(first_id));
    assert!(!runtime.release(&mut first));
    assert!(runtime.publish(event(LEVELS, 1)).is_accepted());
    assert_eq!(runtime.try_receive(&second).unwrap().sequence(), 1);
}

#[test]
fn receiver_unsubscribe_then_drop_preserves_other_receiver() {
    let mut runtime = runtime(2);
    let mut first = runtime.subscribe(LEVELS, 2).unwrap();
    let second = runtime.subscribe(LEVELS, 2).unwrap();
    assert!(runtime.release(&mut first));
    assert!(!runtime.release(&mut first));
    assert!(runtime.publish(event(LEVELS, 1)).is_accepted());
    assert_eq!(runtime.try_receive(&second).unwrap().sequence(), 1);
}

#[test]
fn runtime_preserves_order_and_timestamps() {
    let mut runtime = runtime(3);
    let receiver = runtime.subscribe(LEVELS, 3).unwrap();
    runtime.publish(event(LEVELS, 1));
    runtime.publish(EventEnvelope::new(LEVELS, 2, 4, EventValidity::Measured));
    assert_eq!(runtime.try_receive(&receiver).unwrap().sequence(), 1);
    assert_eq!(runtime.try_receive(&receiver).unwrap().timestamp_samples(), 4);
    assert!(runtime.try_receive(&receiver).is_none());
}

#[test]
fn cadence_is_enforced_for_cadenced_families() {
    let mut runtime = runtime(1);
    let _receiver = runtime.subscribe(SPECTRUM, 1).unwrap();
    assert!(matches!(
        runtime.publish_at(event(SPECTRUM, 1), 10),
        MeteringPublishResult::CadenceRejected
    ));
    assert!(runtime.publish_at(event(SPECTRUM, 1), 15).is_accepted());
    assert!(matches!(
        runtime.publish_at(event(SPECTRUM, 2), 61),
        MeteringPublishResult::CadenceRejected
    ));
}

#[test]
fn cadence_is_not_checked_for_other_families() {
    let mut runtime = runtime(1);
    let _receiver = runtime.subscribe(LEVELS, 1).unwrap();
    assert!(runtime.publish_at(event(LEVELS, 1), 0).is_accepted());
}

#[test]
fn latest_only_family_keeps_the_newest_event() {
    let mut runtime = runtime(1);
    let receiver = runtime.subscribe(LEVELS, 1).unwrap();
    assert!(runtime.publish(event(LEVELS, 1)).is_accepted());
    assert!(runtime.publish(event(LEVELS, 2)).is_dropped());
    assert_eq!(runtime.try_receive(&receiver).unwrap().sequence(), 2);
}

#[test]
fn unknown_family_is_refused_everywhere() {
    let mut runtime = runtime(1);
    assert_eq!(runtime.family_count(), 5);
    assert!(runtime.subscribe(9, 1).is_none());
    assert_eq!(runtime.publish(event(9, 1)), MeteringPublishResult::ReceiverGone);
    assert_eq!(runtime.family_validity(9), EventValidity::Unavailable);
}

#[test]
fn publishing_without_subscribers_is_refused() {
    let mut runtime = runtime(1);
    assert_eq!(runtime.publish(event(LEVELS, 1)), MeteringPublishResult::ReceiverGone);
}

#[test]
fn envelope_keeps_its_fields() {
    let event = EventEnvelope::new(LOUDNESS, 7, 480, EventValidity::Incomplete);
    assert_eq!(event.family(), LOUDNESS);
    assert_eq!(event.sequence(), 7);
    assert_eq!(event.timestamp_samples(), 480);
    assert_eq!(event.validity(), EventValidity::Incomplete);
    assert_eq!(event.cadence_hz(), 0);
}

#[test]
fn publish_results_classify_themselves() {
    assert!(MeteringPublishResult::Accepted.is_accepted());
    assert!(!MeteringPublishResult::Accepted.is_dropped());
    assert!(MeteringPublishResult::Dropped.is_dropped());
    assert!(MeteringPublishResult::Gap.is_gap());
    assert!(!MeteringPublishResult::ReceiverGone.is_accepted());
}
