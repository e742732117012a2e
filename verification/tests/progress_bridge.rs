use clip_pipeline::PollOutcome;
use clip_pipeline::ProgressBridge;

#[test]
fn samples_then_sentinel_drain_in_order() {
    let mut bridge = ProgressBridge::new();
    assert!(bridge.register(7));
    assert!(bridge.send(7, 1500));
    assert!(bridge.send(7, 3000));
    assert!(bridge.finish(7));

    assert_eq!(bridge.poll(7), PollOutcome::Sample(1500));
    assert_eq!(bridge.poll(7), PollOutcome::Sample(3000));
    assert_eq!(bridge.poll(7), PollOutcome::Finished);
    assert_eq!(bridge.poll(7), PollOutcome::Finished);
}

#[test]
fn unregistered_jobs_are_silently_ignored() {
    let mut bridge = ProgressBridge::new();
    assert!(!bridge.send(1, 42));
    assert!(!bridge.finish(1));
    assert_eq!(bridge.poll(1), PollOutcome::Unregistered);
    assert!(!bridge.deregister(1));
}

#[test]
fn channels_are_independent_across_jobs() {
    let mut bridge = ProgressBridge::new();
    bridge.register(1);
    bridge.register(2);

    bridge.send(1, 10);
    bridge.send(2, 20);
    bridge.send(1, 11);
    bridge.finish(1);

    assert_eq!(bridge.poll(1), PollOutcome::Sample(10));
    assert_eq!(bridge.poll(2), PollOutcome::Sample(20));
    assert_eq!(bridge.poll(1), PollOutcome::Sample(11));
    assert_eq!(bridge.poll(2), PollOutcome::Pending);
    assert_eq!(bridge.poll(1), PollOutcome::Finished);

    bridge.send(2, 21);
    assert_eq!(bridge.poll(2), PollOutcome::Sample(21));
}

#[test]
fn sentinel_stops_further_samples() {
    let mut bridge = ProgressBridge::new();
    bridge.register(3);
    bridge.finish(3);
    assert!(!bridge.send(3, 99));
    assert!(!bridge.finish(3));
    assert_eq!(bridge.poll(3), PollOutcome::Finished);
}

#[test]
fn register_twice_keeps_the_first_channel() {
    let mut bridge = ProgressBridge::new();
    assert!(bridge.register(5));
    bridge.send(5, 1);
    assert!(!bridge.register(5));
    assert_eq!(bridge.poll(5), PollOutcome::Sample(1));
}

#[test]
fn deregister_removes_the_channel() {
    let mut bridge = ProgressBridge::new();
    bridge.register(9);
    bridge.send(9, 7);
    assert!(bridge.deregister(9));
    assert_eq!(bridge.poll(9), PollOutcome::Unregistered);
    assert!(!bridge.send(9, 8));
}
