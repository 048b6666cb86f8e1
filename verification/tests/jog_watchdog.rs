use rudydae::jog_watchdog::JogWatchdog;

#[test]
fn jog_deadline_is_ttl_after_arming() {
    let mut w = JogWatchdog::new();
    w.arm("shoulder_actuator_a", 1_000, 200);
    assert_eq!(w.deadline_of("shoulder_actuator_a"), Some(1_200));
    assert_eq!(w.deadline_of("elbow_actuator_b"), None);
    w.arm("elbow_actuator_b", u64::MAX - 5, 200);
    assert_eq!(w.deadline_of("elbow_actuator_b"), Some(u64::MAX));
}

#[test]
fn refreshed_jog_is_not_stopped_early() {
    let mut w = JogWatchdog::new();
    w.arm("shoulder_actuator_a", 0, 100);
    w.arm("shoulder_actuator_a", 80, 100);
    assert!(w.take_expired(150).is_empty());
    assert_eq!(w.deadline_of("shoulder_actuator_a"), Some(180));
    assert_eq!(w.take_expired(180), vec!["shoulder_actuator_a".to_string()]);
}

#[test]
fn expired_jogs_are_reported_once() {
    let mut w = JogWatchdog::new();
    w.arm("shoulder_actuator_a", 0, 100);
    w.arm("elbow_actuator_b", 0, 300);
    w.arm("wrist_actuator_c", 0, 50);
    let mut first = w.take_expired(100);
    first.sort();
    assert_eq!(first, vec!["shoulder_actuator_a".to_string(), "wrist_actuator_c".to_string()]);
    assert!(w.take_expired(200).is_empty());
    assert_eq!(w.deadline_of("elbow_actuator_b"), Some(300));
    assert_eq!(w.take_expired(1_000), vec!["elbow_actuator_b".to_string()]);
    assert!(w.take_expired(2_000).is_empty());
}
