use rudydae::boot_state::{BootState, BootStates};
use rudydae::control_lock::ControlLock;
use rudydae::gates::{
    apply_predefined_home, apply_rename, apply_travel_limits, apply_verified, check_enable, check_home, check_jog,
    check_predefined_home, check_rename, check_set_zero, check_travel_limits,
    check_set_verified, check_test, jog_ttl_ms, lock_gate, parse_name, require_present,
    role_for_can_id, PathCheck, Refusal,
};
use rudydae::inventory::{
    Actuator, ActuatorCommon, ActuatorFamily, CanonicalRoleError, Device, Inventory,
    RobstrideModel, RoleError, TravelLimits,
};
use rudydae::rolemap::RoleSet;
use rudydae::state::AppState;
use rudydae::types::{F32Bits, TestName};

const ROLE: &str = "shoulder_actuator_a";

fn rad(v: f32) -> F32Bits {
    F32Bits(v.to_bits())
}

fn motor(role: &str, id: u8, present: bool, verified: bool) -> Device {
    Device::Actuator(Actuator {
        common: ActuatorCommon {
            role: role.into(),
            can_bus: "can0".into(),
            can_id: id,
            present,
            verified,
            commissioned_at: None,
            firmware_version: None,
            travel_limits: None,
            commissioned_zero_offset: None,
            predefined_home_rad: None,
            limb: None,
            joint_kind: None,
            notes_yaml: None,
        },
        family: ActuatorFamily::Robstride { model: RobstrideModel::Rs03 },
    })
}

fn inv(devices: Vec<Device>) -> Inventory {
    Inventory { schema_version: Some(2), devices }
}

fn code(r: Result<(), Refusal>) -> &'static str {
    match r {
        Ok(()) => "ok",
        Err(e) => e.code(),
    }
}

#[test]
fn enable_not_homed_is_forbidden() {
    let i = inv(vec![motor(ROLE, 8, true, true)]);
    let mut s = BootStates::new();
    s.force_set(ROLE, BootState::InBand);
    let r = check_enable(&i, &s, ROLE, true, false);
    assert_eq!(code(r), "not_homed");
}

#[test]
fn enable_unknown_state_is_forbidden() {
    let i = inv(vec![motor(ROLE, 8, true, true)]);
    let s = BootStates::new();
    let e = check_enable(&i, &s, ROLE, true, false).unwrap_err();
    assert_eq!(e.code(), "not_ready");
    assert_eq!(e.status(), 409);
}

#[test]
fn enable_unverified_motor_is_forbidden() {
    let i = inv(vec![motor(ROLE, 8, true, false)]);
    let mut s = BootStates::new();
    s.mark_homed(ROLE);
    let e = check_enable(&i, &s, ROLE, true, false).unwrap_err();
    assert_eq!(e.code(), "not_verified");
    assert_eq!(e.status(), 403);
    // Without the requirement the homed motor is admitted.
    assert!(check_enable(&i, &s, ROLE, false, false).is_ok());
}

#[test]
fn enable_homed_but_drifted_outside_band_is_forbidden() {
    let i = inv(vec![motor(ROLE, 8, true, true)]);
    let mut s = BootStates::new();
    s.mark_homed(ROLE);
    assert_eq!(code(check_enable(&i, &s, ROLE, true, true)), "out_of_band");
    assert_eq!(code(check_enable(&i, &s, ROLE, true, false)), "ok");
}

#[test]
fn enable_refusals_for_each_boot_state() {
    let i = inv(vec![motor(ROLE, 8, true, true)]);
    let cases: Vec<(BootState, &str)> = vec![
        (BootState::OutOfBand { mech_pos_rad: rad(2.0), min_rad: rad(-1.0), max_rad: rad(1.0) }, "out_of_band"),
        (BootState::AutoRecovering { from_rad: rad(2.0), target_rad: rad(0.9), progress_rad: rad(0.0) }, "auto_recovery_in_progress"),
        (BootState::OffsetChanged { stored_rad: rad(0.5), current_rad: rad(0.0) }, "offset_changed"),
        (BootState::AutoHoming { from_rad: rad(0.1), target_rad: rad(0.0), progress_rad: rad(0.0) }, "auto_homing_in_progress"),
        (BootState::HomeFailed { reason: "timeout".into(), last_pos_rad: rad(0.1) }, "not_homed"),
    ];
    for (bs, expected) in cases {
        let mut s = BootStates::new();
        s.force_set(ROLE, bs);
        assert_eq!(code(check_enable(&i, &s, ROLE, true, false)), expected);
    }
}

#[test]
fn unknown_and_absent_motors_are_refused() {
    let i = inv(vec![motor(ROLE, 8, false, true)]);
    let e = require_present(&i, "nope").unwrap_err();
    assert_eq!((e.code(), e.status()), ("unknown_motor", 404));
    let e = require_present(&i, ROLE).unwrap_err();
    assert_eq!((e.code(), e.status()), ("motor_absent", 409));
}

#[test]
fn home_when_out_of_band_is_forbidden() {
    let i = inv(vec![motor(ROLE, 8, true, true)]);
    let mut s = BootStates::new();
    s.force_set(ROLE, BootState::OutOfBand { mech_pos_rad: rad(2.0), min_rad: rad(-1.0), max_rad: rad(1.0) });
    let e = check_home(&i, &s, ROLE, true, Some(PathCheck::Clear)).unwrap_err();
    assert_eq!(e.code(), "out_of_band");
}

#[test]
fn home_target_outside_band_is_forbidden() {
    let i = inv(vec![motor(ROLE, 8, true, true)]);
    let mut s = BootStates::new();
    s.force_set(ROLE, BootState::InBand);
    assert_eq!(check_home(&i, &s, ROLE, true, Some(PathCheck::OutOfBand)).unwrap_err().code(), "out_of_band");
    assert_eq!(check_home(&i, &s, ROLE, true, Some(PathCheck::PathViolation)).unwrap_err().code(), "path_violation");
    assert_eq!(check_home(&i, &s, ROLE, true, None).unwrap_err().code(), "no_telemetry");
    assert_eq!(check_home(&i, &s, ROLE, false, Some(PathCheck::Clear)).unwrap_err().code(), "bad_request");
    assert!(check_home(&i, &s, ROLE, true, Some(PathCheck::Clear)).is_ok());
}

#[test]
fn home_allowed_after_failed_auto_home_and_when_homed() {
    let i = inv(vec![motor(ROLE, 8, true, true)]);
    let mut s = BootStates::new();
    s.force_set(ROLE, BootState::HomeFailed { reason: "x".into(), last_pos_rad: rad(0.0) });
    assert!(check_home(&i, &s, ROLE, true, Some(PathCheck::Clear)).is_ok());
    s.mark_homed(ROLE);
    assert!(check_home(&i, &s, ROLE, true, Some(PathCheck::Clear)).is_ok());
    s.force_set(ROLE, BootState::AutoHoming { from_rad: rad(0.1), target_rad: rad(0.0), progress_rad: rad(0.0) });
    assert_eq!(check_home(&i, &s, ROLE, true, Some(PathCheck::Clear)).unwrap_err().code(), "auto_homing_in_progress");
}

#[test]
fn second_session_rejected_after_first_implicitly_claims_lock() {
    let mut lock = ControlLock::new();
    assert!(lock_gate(&mut lock, "tab-a").is_ok());
    match lock_gate(&mut lock, "tab-b") {
        Err(Refusal::LockHeld { holder }) => assert_eq!(holder, "tab-a"),
        other => panic!("unexpected {other:?}"),
    }
    assert_eq!(lock_gate(&mut lock, "tab-b").unwrap_err().status(), 423);
    assert!(lock_gate(&mut lock, "tab-a").is_ok());
}

#[test]
fn rename_invalid_role_format_is_rejected() {
    let i = inv(vec![motor(ROLE, 8, true, true)]);
    let en = RoleSet::new();
    match check_rename(&i, &en, ROLE, "NoDots", false) {
        Err(Refusal::InvalidRole(CanonicalRoleError::Format(RoleError::BadStart))) => {}
        other => panic!("unexpected {other:?}"),
    }
    assert_eq!(check_rename(&i, &en, ROLE, "left_arm", false).unwrap_err().code(), "invalid_role");
}

#[test]
fn rename_refusals_in_order() {
    let i = inv(vec![motor("left.m1", 8, true, true), motor("left.m2", 9, true, true)]);
    let mut en = RoleSet::new();
    assert_eq!(check_rename(&i, &en, "left.m1", "left.m1", false).unwrap_err().code(), "no_op");
    assert_eq!(check_rename(&i, &en, "left.zz", "left.m9", false).unwrap_err().code(), "unknown_motor");
    assert_eq!(check_rename(&i, &en, "left.m1", "left.m2", false).unwrap_err().code(), "role_in_use");
    en.insert("left.m1");
    // An enabled motor is renamed through the stop / re-enable cycle.
    assert!(matches!(check_rename(&i, &en, "left.m1", "left.elbow", false), Ok(true)));
    // First-time assignment of an unassigned motor skips the cycle.
    assert!(matches!(check_rename(&i, &en, "left.m1", "left.elbow", true), Ok(false)));
    en.remove("left.m1");
    assert!(matches!(check_rename(&i, &en, "left.m1", "left.elbow", false), Ok(false)));
}

#[test]
fn apply_rename_rewrites_role_and_assignment() {
    let mut i = inv(vec![motor("left.m1", 8, true, true), motor("left.m2", 9, true, true)]);
    assert!(apply_rename(&mut i, "left.m1", "left.elbow", Some(("left".into(), "elbow".into()))));
    let a = i.actuator_by_role("left.elbow").unwrap();
    assert_eq!(a.common.can_id, 8);
    assert_eq!(a.common.limb.as_deref(), Some("left"));
    assert_eq!(a.common.joint_kind.as_deref(), Some("elbow"));
    assert!(i.by_role("left.m1").is_none());
    assert!(!apply_rename(&mut i, "nope.x", "a.b", None));
    assert_eq!(i.devices.len(), 2);
}

#[test]
fn verified_flag_is_set_through_the_gate() {
    let mut i = inv(vec![motor(ROLE, 8, true, false)]);
    let lock = ControlLock::new();
    assert!(check_set_verified(&lock, "", &i, ROLE).is_ok());
    assert_eq!(check_set_verified(&lock, "", &i, "zz").unwrap_err().code(), "unknown_motor");
    assert!(apply_verified(&mut i, ROLE, true));
    assert!(i.actuator_by_role(ROLE).unwrap().common.verified);
}

#[test]
fn test_routine_gate() {
    let i = inv(vec![motor(ROLE, 8, true, true), motor("x.absent", 9, false, true)]);
    let mut lock = ControlLock::new();
    let (t, a) = check_test(&lock, "s1", &i, ROLE, "smoke").unwrap();
    assert_eq!(t, TestName::Smoke);
    assert_eq!(a.common.role, ROLE);
    assert_eq!(check_test(&lock, "s1", &i, ROLE, "dance").unwrap_err().code(), "unknown_test");
    assert_eq!(check_test(&lock, "s1", &i, "x.absent", "read").unwrap_err().code(), "motor_absent");
    lock.acquire_control("s1");
    assert_eq!(check_test(&lock, "s2", &i, ROLE, "read").unwrap_err().code(), "lock_held");
}

#[test]
fn parse_name_round_trips_every_routine() {
    for t in [TestName::Read, TestName::SetZero, TestName::Smoke, TestName::Jog, TestName::JogOverlimit] {
        assert_eq!(parse_name(t.as_str()), Some(t));
    }
    assert_eq!(parse_name("jog_over"), None);
}

#[test]
fn jog_gate_and_ttl() {
    let i = inv(vec![motor(ROLE, 8, true, true)]);
    let mut s = BootStates::new();
    let fresh = Some(1_000i64);
    assert_eq!(check_jog(&i, &s, ROLE, true, true, fresh, 1_050, 100).unwrap_err().code(), "not_ready");
    s.force_set(ROLE, BootState::InBand);
    assert!(check_jog(&i, &s, ROLE, true, true, fresh, 1_050, 100).is_ok());
    assert!(check_jog(&i, &s, ROLE, true, true, fresh, 1_100, 100).is_ok());
    assert_eq!(check_jog(&i, &s, ROLE, true, false, fresh, 1_050, 100).unwrap_err().code(), "bad_request");
    s.mark_auto_recovering(ROLE, rad(1.5), rad(0.9));
    assert_eq!(check_jog(&i, &s, ROLE, true, true, fresh, 1_050, 100).unwrap_err().code(), "auto_recovery_in_progress");
    assert_eq!(jog_ttl_ms(10), 50);
    assert_eq!(jog_ttl_ms(300), 300);
    assert_eq!(jog_ttl_ms(5_000), 1_000);
}

#[test]
fn role_for_can_id_finds_inventory_row() {
    let i = inv(vec![motor(ROLE, 8, true, true)]);
    assert_eq!(role_for_can_id(&i, "can0", 8).as_deref(), Some(ROLE));
    assert_eq!(role_for_can_id(&i, "can1", 8), None);
}

#[test]
fn home_all_preflight_lists_offenders_in_order() {
    let mut s = BootStates::new();
    s.force_set("a.m1", BootState::InBand);
    s.mark_homed("a.m2");
    s.force_set("a.m3", BootState::OffsetChanged { stored_rad: rad(0.5), current_rad: rad(0.0) });
    let roles: Vec<String> = vec!["a.m1".into(), "a.m2".into(), "a.m3".into(), "a.m4".into()];
    let offenders = rudydae::gates::home_all_preflight(&s, &roles);
    assert_eq!(
        offenders,
        vec![("a.m3".to_string(), "offset_changed"), ("a.m4".to_string(), "not_ready")]
    );
}

#[test]
fn predefined_home_refusals() {
    let mut m = motor(ROLE, 8, true, true);
    let i = inv(vec![m]);
    assert_eq!(code(check_predefined_home(&i, ROLE, false, true)), "out_of_range");
    assert_eq!(code(check_predefined_home(&i, "elbow_actuator_b", true, true)), "unknown_motor");
    assert_eq!(code(check_predefined_home(&i, ROLE, true, true)), "no_travel_limits");
    m = motor(ROLE, 8, true, true);
    if let Device::Actuator(a) = &mut m {
        a.common.travel_limits = Some(TravelLimits { min_rad: rad(-1.0), max_rad: rad(1.0), updated_at: None });
    }
    let j = inv(vec![m]);
    assert_eq!(code(check_predefined_home(&j, ROLE, true, false)), "outside_travel_band");
    assert_eq!(code(check_predefined_home(&j, ROLE, true, true)), "ok");
}

#[test]
fn predefined_home_is_recorded_on_the_motor() {
    let mut i = inv(vec![motor("elbow_actuator_b", 9, true, true), motor(ROLE, 8, true, true)]);
    assert!(apply_predefined_home(&mut i, ROLE, rad(0.25)));
    match &i.devices[1] {
        Device::Actuator(a) => assert_eq!(a.common.predefined_home_rad, Some(rad(0.25))),
        _ => panic!("expected an actuator"),
    }
    match &i.devices[0] {
        Device::Actuator(a) => assert_eq!(a.common.predefined_home_rad, None),
        _ => panic!("expected an actuator"),
    }
    assert!(!apply_predefined_home(&mut i, "wrist_actuator_c", rad(0.25)));
}

#[test]
fn travel_limits_gate_and_write() {
    let mut i = inv(vec![motor(ROLE, 8, true, true)]);
    assert_eq!(code(check_travel_limits(&i, "elbow_actuator_b", true)), "unknown_motor");
    assert_eq!(code(check_travel_limits(&i, ROLE, false)), "out_of_range");
    assert_eq!(code(check_travel_limits(&i, ROLE, true)), "ok");
    let band = TravelLimits { min_rad: rad(-1.0), max_rad: rad(1.0), updated_at: Some("2025-01-01T00:00:00Z".into()) };
    assert!(apply_travel_limits(&mut i, ROLE, band));
    match &i.devices[0] {
        Device::Actuator(a) => {
            let l = a.common.travel_limits.as_ref().expect("band");
            assert_eq!(l.min_rad, rad(-1.0));
            assert_eq!(l.max_rad, rad(1.0));
            assert_eq!(l.updated_at.as_deref(), Some("2025-01-01T00:00:00Z"));
        }
        _ => panic!("expected an actuator"),
    }
    let other = TravelLimits { min_rad: rad(-1.0), max_rad: rad(1.0), updated_at: None };
    assert!(!apply_travel_limits(&mut i, "elbow_actuator_b", other));
}

#[test]
fn rename_active_motor_auto_stops_and_reenables() {
    let i = inv(vec![motor(ROLE, 8, true, true)]);
    let mut st = AppState::new();
    st.boot_state.mark_homed(ROLE);
    st.mark_enabled(ROLE);
    let cycle = match check_rename(&i, &st.enabled, ROLE, "left_arm.shoulder_pitch", false) {
        Ok(c) => c,
        Err(e) => panic!("refused: {}", e.code()),
    };
    assert!(cycle);
    // Stop, rename, re-enable under the new role.
    st.mark_stopped(ROLE);
    st.migrate_role(ROLE, "left_arm.shoulder_pitch");
    st.mark_enabled("left_arm.shoulder_pitch");
    assert!(st.is_enabled("left_arm.shoulder_pitch"));
    assert!(!st.is_enabled(ROLE));
}

#[test]
fn rename_stopped_motor_skips_auto_stop_cycle() {
    let i = inv(vec![motor(ROLE, 8, true, true)]);
    let en = RoleSet::new();
    assert!(matches!(check_rename(&i, &en, ROLE, "left_arm.shoulder_pitch", false), Ok(false)));
}

#[test]
fn jog_refuses_on_stale_feedback() {
    let i = inv(vec![motor(ROLE, 8, true, true)]);
    let mut s = BootStates::new();
    s.mark_homed(ROLE);
    // A row 500 ms old against the 100 ms limit.
    let e = check_jog(&i, &s, ROLE, true, true, Some(10_000), 10_500, 100).unwrap_err();
    assert_eq!(e.code(), "stale_telemetry");
    assert_eq!(e.status(), 409);
}

#[test]
fn jog_refuses_with_no_feedback() {
    let i = inv(vec![motor(ROLE, 8, true, true)]);
    let mut s = BootStates::new();
    s.mark_homed(ROLE);
    let e = check_jog(&i, &s, ROLE, true, true, None, 10_500, 100).unwrap_err();
    assert_eq!(e.code(), "stale_telemetry");
}

#[test]
fn set_zero_without_confirm_advanced_returns_400() {
    let i = inv(vec![motor(ROLE, 8, true, true)]);
    let e = check_set_zero(&i, ROLE, false).unwrap_err();
    assert_eq!(e.code(), "requires_confirmation");
    assert_eq!(e.status(), 400);
    assert!(check_set_zero(&i, ROLE, true).is_ok());
    assert_eq!(check_set_zero(&i, "x.nope", true).unwrap_err().code(), "unknown_motor");
    let j = inv(vec![motor(ROLE, 8, false, true)]);
    assert_eq!(check_set_zero(&j, ROLE, true).unwrap_err().code(), "motor_absent");
}
