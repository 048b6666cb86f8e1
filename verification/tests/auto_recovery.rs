use rudydae::auto_recovery::{
    finalize_failure, finalize_success, recovery_start, recovery_timing, FailReason, RecoveryStart,
};
use rudydae::boot_state::{BandReading, BootState, BootStates};
use rudydae::inventory::{
    Actuator, ActuatorCommon, ActuatorFamily, Device, Inventory, RobstrideModel, TravelLimits,
};
use rudydae::rolemap::RoleSet;
use rudydae::types::F32Bits;

const ROLE: &str = "shoulder_actuator_a";

fn rad(v: f32) -> F32Bits {
    F32Bits(v.to_bits())
}

fn motor(role: &str, band: Option<(f32, f32)>) -> Device {
    Device::Actuator(Actuator {
        common: ActuatorCommon {
            role: role.into(),
            can_bus: "can0".into(),
            can_id: 8,
            present: true,
            verified: true,
            commissioned_at: None,
            firmware_version: None,
            travel_limits: band.map(|(lo, hi)| TravelLimits { min_rad: rad(lo), max_rad: rad(hi), updated_at: None }),
            commissioned_zero_offset: None,
            predefined_home_rad: None,
            limb: None,
            joint_kind: None,
            notes_yaml: None,
        },
        family: ActuatorFamily::Robstride { model: RobstrideModel::Rs03 },
    })
}

fn inv(devices: Vec<Device>) -> Inventory {
    Inventory { schema_version: Some(2), devices }
}

#[test]
fn fail_reason_labels() {
    assert_eq!(FailReason::Disabled.label(), "disabled_by_config");
    assert_eq!(FailReason::BudgetExceeded { delta_rad: rad(0.5) }.label(), "budget_exceeded");
    assert_eq!(FailReason::NoBand.label(), "no_band");
    assert_eq!(FailReason::Fault { last_pos_rad: rad(0.1), fault_sta: 4 }.label(), "fault");
    assert_eq!(FailReason::NoCanCore.label(), "no_can_core");
}

#[test]
fn recovery_disabled_by_config_marks_nothing() {
    let i = inv(vec![motor(ROLE, Some((-1.0, 1.0)))]);
    let mut attempted = RoleSet::new();
    let r = recovery_start(false, &mut attempted, &i, ROLE);
    assert_eq!(r, RecoveryStart::Refused(FailReason::Disabled));
    assert!(!attempted.contains(ROLE));
}

#[test]
fn recovery_runs_once_per_role() {
    let i = inv(vec![motor(ROLE, Some((-1.0, 1.0)))]);
    let mut attempted = RoleSet::new();
    let first = recovery_start(true, &mut attempted, &i, ROLE);
    assert_eq!(first, RecoveryStart::Band { min_rad: rad(-1.0), max_rad: rad(1.0) });
    assert!(attempted.contains(ROLE));
    let second = recovery_start(true, &mut attempted, &i, ROLE);
    assert_eq!(second, RecoveryStart::AlreadyAttempted);
}

#[test]
fn recovery_refuses_unknown_or_bandless_motor() {
    let i = inv(vec![motor(ROLE, None)]);
    let mut attempted = RoleSet::new();
    assert_eq!(recovery_start(true, &mut attempted, &i, ROLE), RecoveryStart::Refused(FailReason::NoBand));
    assert_eq!(
        recovery_start(true, &mut attempted, &i, "elbow_actuator_b"),
        RecoveryStart::Refused(FailReason::InventoryGone)
    );
    // Both were marked attempted on the way.
    assert!(attempted.contains("elbow_actuator_b"));
}

#[test]
fn recovery_timing_has_floors() {
    assert_eq!(recovery_timing(1, 200), (5, 1000));
    assert_eq!(recovery_timing(20, 5000), (20, 5000));
    assert_eq!(recovery_timing(5, 1000), (5, 1000));
}

#[test]
fn successful_recovery_leaves_motor_in_band_not_homed() {
    let mut s = BootStates::new();
    s.mark_homed(ROLE);
    finalize_success(&mut s, ROLE, BandReading::Inside);
    assert!(matches!(s.current(ROLE), BootState::InBand));
    assert!(!s.current(ROLE).permits_enable());
}

#[test]
fn successful_recovery_that_lands_outside_is_out_of_band() {
    let mut s = BootStates::new();
    finalize_success(
        &mut s,
        ROLE,
        BandReading::Outside { principal_rad: rad(1.2), min_rad: rad(-1.0), max_rad: rad(1.0) },
    );
    match s.current(ROLE) {
        BootState::OutOfBand { mech_pos_rad, min_rad, max_rad } => {
            assert_eq!(mech_pos_rad, rad(1.2));
            assert_eq!(min_rad, rad(-1.0));
            assert_eq!(max_rad, rad(1.0));
        }
        other => panic!("unexpected state {other:?}"),
    }
}

#[test]
fn failed_recovery_is_out_of_band_at_last_position() {
    let i = inv(vec![motor(ROLE, Some((-1.0, 1.0)))]);
    let mut s = BootStates::new();
    finalize_failure(&mut s, &i, ROLE, rad(1.3));
    match s.current(ROLE) {
        BootState::OutOfBand { mech_pos_rad, min_rad, max_rad } => {
            assert_eq!(mech_pos_rad, rad(1.3));
            assert_eq!(min_rad, rad(-1.0));
            assert_eq!(max_rad, rad(1.0));
        }
        other => panic!("unexpected state {other:?}"),
    }
    // A motor without a band keeps its state.
    let j = inv(vec![motor(ROLE, None)]);
    let mut t = BootStates::new();
    t.mark_homed(ROLE);
    finalize_failure(&mut t, &j, ROLE, rad(1.3));
    assert!(matches!(t.current(ROLE), BootState::Homed));
}
