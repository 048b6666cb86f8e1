use rudydae::boot_orchestrator::{
    after_readback, after_telemetry, begin, clear_orchestrator_attempted, finish,
    orchestrator_qualifies, BeginStep, OffsetReadback, OrchestratorSkip, RampOutcome,
    TelemetrySample,
};
use rudydae::boot_state::{BootState, BootStates, ClassifyOutcome};
use rudydae::inventory::{Actuator, ActuatorCommon, ActuatorFamily, Device, Inventory, RobstrideModel};
use rudydae::rolemap::RoleSet;
use rudydae::types::F32Bits;

const ROLE: &str = "shoulder_actuator_a";

fn rad(v: f32) -> F32Bits {
    F32Bits(v.to_bits())
}

fn inventory(offset: Option<f32>, home: Option<f32>) -> Inventory {
    Inventory {
        schema_version: Some(2),
        devices: vec![Device::Actuator(Actuator {
            common: ActuatorCommon {
                role: ROLE.into(),
                can_bus: "can0".into(),
                can_id: 8,
                present: true,
                verified: true,
                commissioned_at: None,
                firmware_version: None,
                travel_limits: None,
                commissioned_zero_offset: offset.map(rad),
                predefined_home_rad: home.map(rad),
                limb: None,
                joint_kind: None,
                notes_yaml: None,
            },
            family: ActuatorFamily::Robstride { model: RobstrideModel::Rs03 },
        })],
    }
}

fn fresh(now: i64) -> Option<TelemetrySample> {
    Some(TelemetrySample { t_ms: now - 10, mech_pos_rad: rad(0.2), outside_band: false })
}

#[test]
fn orchestrator_skips_when_disabled() {
    let inv = inventory(Some(0.0), None);
    let mut attempted = RoleSet::new();
    let r = begin(false, &mut attempted, &inv, ROLE);
    assert!(matches!(r, BeginStep::Skip(OrchestratorSkip::Disabled)));
    assert!(!attempted.contains(ROLE));
}

#[test]
fn orchestrator_uncommissioned_is_recorded_and_idempotent() {
    let inv = inventory(None, None);
    let mut attempted = RoleSet::new();
    let r = begin(true, &mut attempted, &inv, ROLE);
    assert!(matches!(r, BeginStep::Skip(OrchestratorSkip::Uncommissioned)));
    assert!(attempted.contains(ROLE));
    let r2 = begin(true, &mut attempted, &inv, ROLE);
    assert!(matches!(r2, BeginStep::Skip(OrchestratorSkip::AlreadyAttempted)));
}

#[test]
fn orchestrator_missing_motor_clears_attempted() {
    let inv = inventory(Some(0.0), None);
    let mut attempted = RoleSet::new();
    let r = begin(true, &mut attempted, &inv, "other.role");
    assert!(matches!(r, BeginStep::Skip(OrchestratorSkip::MotorMissing)));
    assert!(!attempted.contains("other.role"));
}

#[test]
fn orchestrator_mismatch_sets_offset_changed_and_stays_attempted() {
    let inv = inventory(Some(0.5), None);
    let mut attempted = RoleSet::new();
    let mut states = BootStates::new();
    let plan = match begin(true, &mut attempted, &inv, ROLE) {
        BeginStep::ReadOffset(p) => p,
        other => panic!("unexpected {other:?}"),
    };
    assert_eq!(plan.stored_offset_rad, rad(0.5));
    let r = after_readback(
        OffsetReadback::Disagrees { current_rad: rad(0.0) },
        &plan,
        &mut attempted,
        &mut states,
        ROLE,
    );
    assert_eq!(
        r,
        Some(OrchestratorSkip::OffsetChanged { stored_rad: rad(0.5), current_rad: rad(0.0) })
    );
    match states.current(ROLE) {
        BootState::OffsetChanged { stored_rad, current_rad } => {
            assert_eq!(stored_rad, rad(0.5));
            assert_eq!(current_rad, rad(0.0));
        }
        other => panic!("unexpected {other:?}"),
    }
    assert!(attempted.contains(ROLE));
}

#[test]
fn orchestrator_happy_path_auto_homes() {
    let inv = inventory(Some(0.0), Some(0.3));
    let mut attempted = RoleSet::new();
    let mut states = BootStates::new();
    let plan = match begin(true, &mut attempted, &inv, ROLE) {
        BeginStep::ReadOffset(p) => p,
        other => panic!("unexpected {other:?}"),
    };
    assert_eq!(plan.target_rad, rad(0.3));
    assert_eq!(after_readback(OffsetReadback::Agrees, &plan, &mut attempted, &mut states, ROLE), None);
    let now = 1_000_000;
    let ramp = after_telemetry(fresh(now), now, 250, &plan, &mut attempted, &mut states, ROLE)
        .expect("ramp starts");
    assert_eq!(ramp.from_rad, rad(0.2));
    assert_eq!(ramp.target_rad, rad(0.3));
    assert!(matches!(states.current(ROLE), BootState::AutoHoming { .. }));
    finish(RampOutcome::Reached, &mut states, ROLE);
    assert!(matches!(states.current(ROLE), BootState::Homed));
    // A second run after success is a no-op.
    assert!(matches!(
        begin(true, &mut attempted, &inv, ROLE),
        BeginStep::Skip(OrchestratorSkip::AlreadyAttempted)
    ));
}

#[test]
fn orchestrator_default_target_is_zero() {
    let inv = inventory(Some(0.0), None);
    let mut attempted = RoleSet::new();
    match begin(true, &mut attempted, &inv, ROLE) {
        BeginStep::ReadOffset(p) => assert_eq!(p.target_rad, rad(0.0)),
        other => panic!("unexpected {other:?}"),
    }
}

#[test]
fn orchestrator_stale_telemetry_clears_attempted_then_retries() {
    let inv = inventory(Some(0.0), None);
    let mut attempted = RoleSet::new();
    let mut states = BootStates::new();
    let plan = match begin(true, &mut attempted, &inv, ROLE) {
        BeginStep::ReadOffset(p) => p,
        other => panic!("unexpected {other:?}"),
    };
    let now = 1_000_000;
    let stale = Some(TelemetrySample { t_ms: now - 10_000, mech_pos_rad: rad(0.0), outside_band: false });
    let r = after_telemetry(stale, now, 250, &plan, &mut attempted, &mut states, ROLE);
    assert_eq!(r, Err(OrchestratorSkip::Stale));
    assert!(!attempted.contains(ROLE));
    assert!(matches!(states.current(ROLE), BootState::Unknown));
    // Retry with fresh telemetry succeeds.
    assert!(matches!(begin(true, &mut attempted, &inv, ROLE), BeginStep::ReadOffset(_)));
    assert!(after_telemetry(fresh(now), now, 250, &plan, &mut attempted, &mut states, ROLE).is_ok());
}

#[test]
fn orchestrator_out_of_band_and_missing_telemetry_clear_attempted() {
    let inv = inventory(Some(0.0), None);
    let mut attempted = RoleSet::new();
    let mut states = BootStates::new();
    let plan = match begin(true, &mut attempted, &inv, ROLE) {
        BeginStep::ReadOffset(p) => p,
        other => panic!("unexpected {other:?}"),
    };
    let now = 5_000;
    let outside = Some(TelemetrySample { t_ms: now, mech_pos_rad: rad(1.0), outside_band: true });
    assert_eq!(
        after_telemetry(outside, now, 250, &plan, &mut attempted, &mut states, ROLE),
        Err(OrchestratorSkip::OutOfBand)
    );
    assert!(!attempted.contains(ROLE));
    attempted.insert(ROLE);
    assert_eq!(
        after_telemetry(None, now, 250, &plan, &mut attempted, &mut states, ROLE),
        Err(OrchestratorSkip::NoTelemetry)
    );
    assert!(!attempted.contains(ROLE));
}

#[test]
fn orchestrator_readback_failure_clears_attempted() {
    let inv = inventory(Some(0.0), None);
    let mut attempted = RoleSet::new();
    let mut states = BootStates::new();
    let plan = match begin(true, &mut attempted, &inv, ROLE) {
        BeginStep::ReadOffset(p) => p,
        other => panic!("unexpected {other:?}"),
    };
    assert_eq!(
        after_readback(OffsetReadback::Failed, &plan, &mut attempted, &mut states, ROLE),
        Some(OrchestratorSkip::ReadbackFailed)
    );
    assert!(!attempted.contains(ROLE));
}

#[test]
fn orchestrator_homer_failure_marks_home_failed() {
    let mut states = BootStates::new();
    finish(
        RampOutcome::Failed { reason: "timeout".into(), last_pos_rad: rad(0.1) },
        &mut states,
        ROLE,
    );
    match states.current(ROLE) {
        BootState::HomeFailed { reason, last_pos_rad } => {
            assert_eq!(reason, "timeout");
            assert_eq!(last_pos_rad, rad(0.1));
        }
        other => panic!("unexpected {other:?}"),
    }
}

#[test]
fn qualifies_on_out_of_band_to_in_band() {
    let out = ClassifyOutcome::Changed {
        new: BootState::InBand,
        prev: BootState::OutOfBand { mech_pos_rad: rad(2.0), min_rad: rad(-1.0), max_rad: rad(1.0) },
    };
    assert!(orchestrator_qualifies(&out, false, &BootState::InBand));
    let from_unknown = ClassifyOutcome::Changed { new: BootState::InBand, prev: BootState::Unknown };
    assert!(orchestrator_qualifies(&from_unknown, false, &BootState::InBand));
    let from_homed = ClassifyOutcome::Changed { new: BootState::InBand, prev: BootState::Homed };
    assert!(!orchestrator_qualifies(&from_homed, false, &BootState::InBand));
    assert!(!orchestrator_qualifies(&ClassifyOutcome::Unchanged, false, &BootState::InBand));
    assert!(orchestrator_qualifies(&ClassifyOutcome::Unchanged, true, &BootState::InBand));
    assert!(!orchestrator_qualifies(&ClassifyOutcome::Unchanged, true, &BootState::Homed));
}

#[test]
fn clearing_attempted_reopens_the_gate() {
    let inv = inventory(None, None);
    let mut attempted = RoleSet::new();
    let _ = begin(true, &mut attempted, &inv, ROLE);
    clear_orchestrator_attempted(&mut attempted, ROLE);
    assert!(!attempted.contains(ROLE));
    assert!(matches!(
        begin(true, &mut attempted, &inv, ROLE),
        BeginStep::Skip(OrchestratorSkip::Uncommissioned)
    ));
}
