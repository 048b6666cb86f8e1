use rudydae::boot_state::{BootState, BootStates};
use rudydae::commissioning::{
    apply_commission, commission_precheck, commission_readback, is_finite_bits,
    restore_finish, restore_precheck, CommissionBusOutcome, CommissionFailure,
    RestoreBusOutcome, RestoreFailure,
};
use rudydae::inventory::{Actuator, ActuatorCommon, ActuatorFamily, Device, Inventory, RobstrideModel};
use rudydae::rolemap::RoleSet;
use rudydae::types::F32Bits;

const ROLE: &str = "shoulder_actuator_a";

fn rad(v: f32) -> F32Bits {
    F32Bits(v.to_bits())
}

fn inv(present: bool, offset: Option<F32Bits>) -> Inventory {
    Inventory {
        schema_version: Some(2),
        devices: vec![Device::Actuator(Actuator {
            common: ActuatorCommon {
                role: ROLE.into(),
                can_bus: "can0".into(),
                can_id: 8,
                present,
                verified: true,
                commissioned_at: None,
                firmware_version: None,
                travel_limits: None,
                commissioned_zero_offset: offset,
                predefined_home_rad: None,
                limb: None,
                joint_kind: None,
                notes_yaml: None,
            },
            family: ActuatorFamily::Robstride { model: RobstrideModel::Rs03 },
        })],
    }
}

#[test]
fn finite_bits_matches_f32() {
    for v in [0.0f32, -1.5, 1e30, f32::MIN_POSITIVE, f32::INFINITY, f32::NEG_INFINITY, f32::NAN] {
        assert_eq!(is_finite_bits(rad(v)), v.is_finite(), "value {v}");
    }
}

#[test]
fn commission_endpoint_unknown_role_and_absent_motor() {
    let i = inv(true, None);
    assert_eq!(commission_precheck(&i, "nope").unwrap_err(), CommissionFailure::UnknownMotor);
    assert_eq!(CommissionFailure::UnknownMotor.step(), "step 2 (unknown_motor)");
    assert_eq!(CommissionFailure::UnknownMotor.status(), 404);
    let absent = inv(false, None);
    assert_eq!(commission_precheck(&absent, ROLE).unwrap_err(), CommissionFailure::MotorAbsent);
    assert_eq!(CommissionFailure::MotorAbsent.status(), 409);
}

#[test]
fn commission_readback_steps() {
    assert_eq!(commission_readback(CommissionBusOutcome::SetZeroFailed), Err(CommissionFailure::SetZeroFailed));
    assert_eq!(commission_readback(CommissionBusOutcome::SaveFailed), Err(CommissionFailure::SaveFailed));
    assert_eq!(commission_readback(CommissionBusOutcome::ReadFailed), Err(CommissionFailure::ReadFailed));
    assert_eq!(commission_readback(CommissionBusOutcome::Readback(rad(0.25))), Ok(rad(0.25)));
    assert_eq!(
        commission_readback(CommissionBusOutcome::Readback(rad(f32::NAN))),
        Err(CommissionFailure::ReadbackNonFinite)
    );
    assert_eq!(CommissionFailure::ReadbackNonFinite.step(), "step 6 (readback)");
    assert_eq!(CommissionFailure::ReadbackNonFinite.status(), 502);
    assert_eq!(CommissionFailure::InventoryWrite.status(), 500);
}

#[test]
fn commission_endpoint_writes_inventory() {
    let mut i = inv(true, None);
    assert!(apply_commission(&mut i, ROLE, rad(0.0), "2024-01-01T00:00:00Z".into()));
    let a = i.actuator_by_role(ROLE).unwrap();
    assert_eq!(a.common.commissioned_zero_offset, Some(rad(0.0)));
    assert_eq!(a.common.commissioned_at.as_deref(), Some("2024-01-01T00:00:00Z"));
    assert!(!apply_commission(&mut i, "nope", rad(1.0), "t".into()));
}

#[test]
fn restore_offset_rejects_when_not_offset_changed() {
    let i = inv(true, Some(rad(0.5)));
    let mut s = BootStates::new();
    s.force_set(ROLE, BootState::InBand);
    assert_eq!(restore_precheck(&i, &s, ROLE), Err(RestoreFailure::WrongBootState));
    assert_eq!(RestoreFailure::WrongBootState.step(), "step 4 (wrong_boot_state)");
    assert_eq!(RestoreFailure::WrongBootState.status(), 409);
}

#[test]
fn restore_precheck_step_order() {
    let s = BootStates::new();
    assert_eq!(restore_precheck(&inv(true, None), &s, "zz"), Err(RestoreFailure::UnknownMotor));
    assert_eq!(restore_precheck(&inv(false, None), &s, ROLE), Err(RestoreFailure::MotorAbsent));
    assert_eq!(restore_precheck(&inv(true, None), &s, ROLE), Err(RestoreFailure::NotCommissioned));
    assert_eq!(
        restore_precheck(&inv(true, Some(rad(f32::INFINITY))), &s, ROLE),
        Err(RestoreFailure::BadInventory)
    );
}

#[test]
fn restore_offset_mock_clears_offset_changed() {
    let i = inv(true, Some(rad(0.5)));
    let mut s = BootStates::new();
    s.force_set_offset_changed(ROLE, rad(0.5), rad(0.0));
    let plan = restore_precheck(&i, &s, ROLE).unwrap();
    assert_eq!(plan.commissioned_rad, rad(0.5));
    assert_eq!(plan.offset_changed_stored_rad, rad(0.5));
    let mut attempted = RoleSet::new();
    attempted.insert(ROLE);
    let r = restore_finish(
        RestoreBusOutcome::Readback { value: rad(0.5), agrees: true },
        &mut s,
        &mut attempted,
        ROLE,
    );
    assert_eq!(r, Ok(rad(0.5)));
    assert!(matches!(s.current(ROLE), BootState::Unknown));
    assert!(!attempted.contains(ROLE));
}

#[test]
fn restore_failures_leave_state_untouched() {
    let mut s = BootStates::new();
    s.force_set_offset_changed(ROLE, rad(0.5), rad(0.0));
    let mut attempted = RoleSet::new();
    attempted.insert(ROLE);
    for (o, f) in [
        (RestoreBusOutcome::WriteFailed, RestoreFailure::WriteFailed),
        (RestoreBusOutcome::ReadFailed, RestoreFailure::ReadFailed),
        (RestoreBusOutcome::Readback { value: rad(f32::NAN), agrees: true }, RestoreFailure::ReadbackNonFinite),
        (RestoreBusOutcome::Readback { value: rad(0.4), agrees: false }, RestoreFailure::ReadbackMismatch),
    ] {
        assert_eq!(restore_finish(o, &mut s, &mut attempted, ROLE), Err(f));
        assert!(matches!(s.current(ROLE), BootState::OffsetChanged { .. }));
        assert!(attempted.contains(ROLE));
    }
    assert_eq!(RestoreFailure::ReadbackMismatch.step(), "step 7 (readback_mismatch)");
    assert_eq!(RestoreFailure::WriteFailed.status(), 502);
}
