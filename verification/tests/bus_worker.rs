use rudydae::bus::{
    auto_assign_cpu, classify_frame, core_for, is_tx_queue_full, read_request_payload,
    velocity_marks_enabled, velocity_needs_rearm, FrameKind, PendingKey, PendingTable,
};
use std::collections::HashMap;

#[test]
fn auto_assign_cpu_skips_core_zero() {
    // 4-core system, 3 buses -> cores 1, 2, 3 (round-robin).
    assert_eq!(auto_assign_cpu(0, 4), Some(1));
    assert_eq!(auto_assign_cpu(1, 4), Some(2));
    assert_eq!(auto_assign_cpu(2, 4), Some(3));
    // 4th bus wraps back to core 1.
    assert_eq!(auto_assign_cpu(3, 4), Some(1));
}

#[test]
fn auto_assign_cpu_single_core_returns_none() {
    assert_eq!(auto_assign_cpu(0, 1), None);
    assert_eq!(auto_assign_cpu(2, 1), None);
}

#[test]
fn auto_assign_cpu_two_cores_uses_only_core_one() {
    // With 2 cores total, only core 1 is available for workers.
    assert_eq!(auto_assign_cpu(0, 2), Some(1));
    assert_eq!(auto_assign_cpu(1, 2), Some(1));
    assert_eq!(auto_assign_cpu(7, 2), Some(1));
}

#[test]
fn pending_key_distinguishes_motor_and_index() {
    let a = PendingKey { motor_id: 0x08, index: 0x7019 };
    let b = PendingKey { motor_id: 0x09, index: 0x7019 };
    let c = PendingKey { motor_id: 0x08, index: 0x701A };
    assert_ne!(a, b);
    assert_ne!(a, c);
    assert_ne!(b, c);
    let mut map = HashMap::new();
    map.insert(a, "a");
    map.insert(b, "b");
    map.insert(c, "c");
    assert_eq!(map.len(), 3);
}

#[test]
fn auto_assign_cpu_zero_cores_returns_none() {
    assert_eq!(auto_assign_cpu(0, 0), None);
}

#[test]
fn core_for_rejects_out_of_range_pin() {
    assert_eq!(core_for(2, 4), Some(2));
    assert_eq!(core_for(4, 4), None);
}

#[test]
fn read_request_payload_is_little_endian_index() {
    let p = read_request_payload(0x7019);
    assert_eq!(p, [0x19, 0x70, 0, 0, 0, 0, 0, 0]);
}

#[test]
fn pending_table_supersedes_same_key() {
    let mut t: PendingTable<&str> = PendingTable::new();
    let k = PendingKey { motor_id: 8, index: 0x7019 };
    assert_eq!(t.insert(k, "first", 100), None);
    assert_eq!(t.insert(k, "second", 200), Some("first"));
    assert_eq!(t.len(), 1);
    assert_eq!(t.take(k), Some("second"));
    assert_eq!(t.take(k), None);
    assert_eq!(t.len(), 0);
}

#[test]
fn pending_table_reaps_only_expired() {
    let mut t: PendingTable<u32> = PendingTable::new();
    let a = PendingKey { motor_id: 1, index: 1 };
    let b = PendingKey { motor_id: 2, index: 1 };
    t.insert(a, 10, 100);
    t.insert(b, 20, 300);
    let expired = t.reap_expired(200);
    assert_eq!(expired.len(), 1);
    assert_eq!(expired[0], (a, 10));
    assert_eq!(t.len(), 1);
    assert_eq!(t.take(b), Some(20));
}

#[test]
fn classify_frame_short_frame_is_ignored() {
    let k = classify_frame(2 << 24, [0; 8], 4);
    assert!(matches!(k, FrameKind::Ignored));
}

#[test]
fn classify_frame_feedback_reports_source_motor() {
    // comm type 2, source motor id in bits 16..24.
    let id: u32 = (2u32 << 24) | (0x08u32 << 16) | (0xFDu32 << 8);
    let k = classify_frame(id, [0; 8], 8);
    assert!(matches!(k, FrameKind::Feedback { src_motor: 0x08 }));
}

#[test]
fn velocity_rearm_rules() {
    assert!(velocity_needs_rearm(None));
    assert!(velocity_needs_rearm(Some(false)));
    assert!(!velocity_needs_rearm(Some(true)));
    assert!(velocity_marks_enabled(true, true, false));
    assert!(!velocity_marks_enabled(true, false, false));
    assert!(!velocity_marks_enabled(true, true, true));
    assert!(!velocity_marks_enabled(false, true, false));
}

#[test]
fn enobufs_is_tx_queue_full() {
    assert!(is_tx_queue_full(Some(105)));
    assert!(!is_tx_queue_full(Some(110)));
    assert!(!is_tx_queue_full(None));
}

#[test]
fn classify_frame_read_reply_ok_and_fail() {
    // comm 17, status 0, motor 0x08 in bits 8..16.
    let ok_id: u32 = (17u32 << 24) | (0x08u32 << 8) | 0xFD;
    let data = [0x19, 0x70, 0, 0, 1, 2, 3, 4];
    match classify_frame(ok_id, data, 8) {
        FrameKind::ReadReply { motor, index, value } => {
            assert_eq!(motor, 0x08);
            assert_eq!(index, 0x7019);
            assert_eq!(value, Some([1, 2, 3, 4]));
        }
        other => panic!("unexpected {other:?}"),
    }
    let fail_id: u32 = ok_id | (1u32 << 16);
    match classify_frame(fail_id, data, 8) {
        FrameKind::ReadReply { value, .. } => assert_eq!(value, None),
        other => panic!("unexpected {other:?}"),
    }
}
