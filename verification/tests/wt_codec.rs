use rudydae::types::{
    wt_streams, MotorFeedback, SafetyEvent, SystemSnapshot, TestProgress, WtKind, WtPayload,
    WtSubscribe, WtSubscribeFilters, WtTransport, F32Bits, WtEnvelope, WT_PROTOCOL_VERSION,
};
use rudydae::wt_router::{frame_reliable, parse_frame_header, SessionRouter, SubscriptionFilter};

fn sample_motor(role: &str) -> MotorFeedback {
    MotorFeedback {
        t_ms: 1_700_000_123_456,
        role: role.into(),
        can_id: 0x08,
        mech_pos_rad: F32Bits(0.5f32.to_bits()),
        mech_vel_rad_s: F32Bits((-0.25f32).to_bits()),
        torque_nm: F32Bits(1.5f32.to_bits()),
        vbus_v: F32Bits(48.1f32.to_bits()),
        temp_c: F32Bits(32.0f32.to_bits()),
        fault_sta: 0,
        warn_sta: 0,
    }
}

#[test]
fn discriminator_strings_match_macro() {
    assert_eq!(<MotorFeedback as WtPayload>::wt_kind().as_str(), "motor_feedback");
    assert_eq!(<SystemSnapshot as WtPayload>::wt_kind().as_str(), "system_snapshot");
    assert_eq!(<TestProgress as WtPayload>::wt_kind().as_str(), "test_progress");
    assert_eq!(<SafetyEvent as WtPayload>::wt_kind().as_str(), "safety_event");
    assert_eq!(WtKind::MotorFeedback.as_str(), "motor_feedback");
    assert_eq!(WtKind::SystemSnapshot.as_str(), "system_snapshot");
    assert_eq!(WtKind::TestProgress.as_str(), "test_progress");
    assert_eq!(WtKind::SafetyEvent.as_str(), "safety_event");

    let kinds: Vec<&str> = wt_streams().iter().map(|s| s.kind).collect();
    assert!(kinds.contains(&"motor_feedback"));
    assert!(kinds.contains(&"system_snapshot"));
    assert!(kinds.contains(&"test_progress"));
    assert!(kinds.contains(&"safety_event"));
}

#[test]
fn transport_assignments_match_macro() {
    assert_eq!(<MotorFeedback as WtPayload>::wt_kind().transport(), WtTransport::Datagram);
    assert_eq!(<SystemSnapshot as WtPayload>::wt_kind().transport(), WtTransport::Datagram);
    assert_eq!(<TestProgress as WtPayload>::wt_kind().transport(), WtTransport::Stream);
    assert_eq!(<SafetyEvent as WtPayload>::wt_kind().transport(), WtTransport::Stream);
    assert_eq!(WtKind::MotorFeedback.transport(), WtTransport::Datagram);
    assert_eq!(WtKind::TestProgress.transport(), WtTransport::Stream);
}

#[test]
fn reliable_stream_framing_is_length_prefixed() {
    // `u32 BE length | cbor body`.
    let value = ciborium::Value::Map(vec![
        (ciborium::Value::Text("kind".into()), ciborium::Value::Text("system_snapshot".into())),
        (ciborium::Value::Text("seq".into()), ciborium::Value::Integer(99.into())),
    ]);
    let mut body = Vec::with_capacity(256);
    ciborium::into_writer(&value, &mut body).expect("cbor body");

    let frame = frame_reliable(&body).expect("frame fits");
    assert_eq!(frame.len(), 4 + body.len());
    let (header, rest) = frame.split_at(4);
    let parsed_len = u32::from_be_bytes([header[0], header[1], header[2], header[3]]) as usize;
    assert_eq!(parsed_len, body.len(), "length header round-trips");
    assert_eq!(parse_frame_header(&frame), Some((body.len() as u32, 4)));
    let parsed: ciborium::Value = ciborium::from_reader(rest).expect("body decodes");
    assert_eq!(parsed, value);
}

#[test]
fn wt_subscribe_default_kinds_means_all() {
    let sub = WtSubscribe { kinds: vec![], filters: WtSubscribeFilters::new() };
    assert!(sub.kinds.is_empty());
    assert!(sub.filters.motor_roles.is_empty());
    let mut router = SessionRouter::new();
    router.apply_subscribe(sub);
    assert!(router.allows_system_snapshot());
    assert!(router.allows_motor_feedback(&sample_motor("any.role")));
}

#[test]
fn subscription_narrows_kinds_and_motors() {
    let mut router = SessionRouter::new();
    let mut filters = WtSubscribeFilters::new();
    filters.motor_roles.push("left.elbow".into());
    router.apply_subscribe(WtSubscribe { kinds: vec![WtKind::MotorFeedback], filters });
    assert!(!router.allows_system_snapshot());
    assert!(router.allows_motor_feedback(&sample_motor("left.elbow")));
    assert!(!router.allows_motor_feedback(&sample_motor("right.elbow")));
}

#[test]
fn everything_filter_allows_all_kinds() {
    let f = SubscriptionFilter::everything();
    for k in WtKind::all() {
        assert!(f.allows_kind(k));
    }
    assert!(f.allows_motor("x"));
}

#[test]
fn per_kind_sequence_numbers_count_up() {
    let mut router = SessionRouter::new();
    assert_eq!(router.next_seq(WtKind::MotorFeedback), 0);
    assert_eq!(router.next_seq(WtKind::MotorFeedback), 1);
    assert_eq!(router.next_seq(WtKind::SafetyEvent), 0);
}

#[test]
fn envelope_is_stamped_with_kind_and_version() {
    let env = WtEnvelope::new(7, sample_motor("a.b"));
    assert_eq!(env.v, WT_PROTOCOL_VERSION);
    assert_eq!(env.kind, "motor_feedback");
    assert_eq!(env.seq, 7);
    assert!(env.t_ms > 0);
}

#[test]
fn short_frame_has_no_header() {
    assert_eq!(parse_frame_header(&[0, 0, 1]), None);
    assert_eq!(parse_frame_header(&[0, 0, 1, 2, 9]), Some((258, 4)));
}

#[test]
fn envelope_is_stamped_with_the_wall_clock() {
    let before = std::time::SystemTime::now().duration_since(std::time::UNIX_EPOCH).unwrap().as_millis() as i64;
    let env = WtEnvelope::new(3, sample_motor("shoulder_actuator_a"));
    let after = std::time::SystemTime::now().duration_since(std::time::UNIX_EPOCH).unwrap().as_millis() as i64;
    assert_eq!(env.seq, 3);
    assert!(before <= env.t_ms && env.t_ms <= after);
}

#[test]
fn envelope_carries_the_clock_reading() {
    let env = WtEnvelope::new_at(9, Some(1_700_000_123_456), sample_motor("shoulder_actuator_a"));
    assert_eq!(env.t_ms, 1_700_000_123_456);
    assert_eq!(env.seq, 9);
    assert_eq!(env.kind, "motor_feedback");
    assert_eq!(env.v, WT_PROTOCOL_VERSION);
    assert_eq!(WtEnvelope::new_at(0, None, sample_motor("a")).t_ms, 0);
    assert_eq!(WtEnvelope::new_at(0, Some(u128::MAX), sample_motor("a")).t_ms, i64::MAX);
    assert_eq!(rudydae::clock::unix_ms_from_reading(Some(42)), 42);
    assert_eq!(rudydae::clock::unix_ms_from_reading(Some(1u128 << 63)), i64::MAX);
    assert_eq!(rudydae::clock::unix_ms_from_reading(None), 0);
}
