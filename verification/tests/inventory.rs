use rudydae::inventory::{
    check_schema_version, schema_version_of, validate_canonical_role, validate_role_format,
    Actuator, ActuatorCommon, ActuatorFamily, CanonicalRoleError, Device, Inventory,
    InventoryViolation, RobstrideModel, RoleError,
};

fn actuator(role: &str, bus: &str, id: u8) -> Device {
    Device::Actuator(Actuator {
        common: ActuatorCommon {
            role: role.into(),
            can_bus: bus.into(),
            can_id: id,
            present: true,
            verified: false,
            commissioned_at: None,
            firmware_version: None,
            travel_limits: None,
            commissioned_zero_offset: None,
            predefined_home_rad: None,
            limb: None,
            joint_kind: None,
            notes_yaml: None,
        },
        family: ActuatorFamily::Robstride { model: RobstrideModel::Rs03 },
    })
}

#[test]
fn validate_rejects_duplicate_can_id_same_bus() {
    let inv = Inventory {
        schema_version: Some(2),
        devices: vec![actuator("a.m1", "can0", 8), actuator("a.m2", "can0", 8)],
    };
    assert!(inv.validate().is_err());
}

#[test]
fn validate_reports_duplicate_address() {
    let inv = Inventory {
        schema_version: Some(2),
        devices: vec![actuator("a.m1", "can0", 8), actuator("a.m2", "can0", 8)],
    };
    match inv.validate() {
        Err(InventoryViolation::DuplicateAddress { can_bus, can_id }) => {
            assert_eq!(can_bus, "can0");
            assert_eq!(can_id, 8);
        }
        other => panic!("unexpected {other:?}"),
    }
}

#[test]
fn validate_accepts_same_id_on_other_bus() {
    let inv = Inventory {
        schema_version: Some(2),
        devices: vec![actuator("a.m1", "can0", 8), actuator("a.m2", "can1", 8)],
    };
    assert!(inv.validate().is_ok());
}

#[test]
fn validate_reports_duplicate_role() {
    let inv = Inventory {
        schema_version: Some(2),
        devices: vec![actuator("a.m1", "can0", 8), actuator("a.m1", "can0", 9)],
    };
    assert!(matches!(inv.validate(), Err(InventoryViolation::DuplicateRole { .. })));
}

#[test]
fn role_format_rules() {
    assert_eq!(validate_role_format("shoulder_a"), Ok(()));
    assert_eq!(validate_role_format(""), Err(RoleError::Empty));
    assert_eq!(validate_role_format("Abc"), Err(RoleError::BadStart));
    assert_eq!(validate_role_format("a.b.c"), Err(RoleError::MultipleDots));
    assert_eq!(validate_role_format("a-b"), Err(RoleError::IllegalChar(b'-')));
}

#[test]
fn canonical_role_rules() {
    assert_eq!(validate_canonical_role("left_arm.shoulder_pitch"), Ok(()));
    assert_eq!(validate_canonical_role("left_arm"), Err(CanonicalRoleError::NotCanonical));
    assert_eq!(validate_canonical_role("left_arm."), Err(CanonicalRoleError::EmptyPart));
    assert_eq!(
        validate_canonical_role("9arm.x"),
        Err(CanonicalRoleError::Format(RoleError::BadStart))
    );
}

#[test]
fn model_labels_round_trip() {
    for m in [RobstrideModel::Rs01, RobstrideModel::Rs02, RobstrideModel::Rs03, RobstrideModel::Rs04] {
        assert_eq!(RobstrideModel::from_spec_actuator_model(m.as_spec_label()).unwrap(), m);
    }
    assert_eq!(RobstrideModel::Rs03.as_spec_label(), "RS03");
    assert_eq!(RobstrideModel::Rs03.robstride_yaml_suffix(), "rs03");
    assert_eq!(RobstrideModel::from_spec_actuator_model(" rs02 ").unwrap(), RobstrideModel::Rs02);
    assert!(RobstrideModel::from_spec_actuator_model("RS09").is_err());
}

#[test]
fn schema_version_rules() {
    assert_eq!(schema_version_of(None), 1);
    assert_eq!(schema_version_of(Some(2)), 2);
    assert!(check_schema_version(2).is_ok());
    assert!(check_schema_version(1).is_err());
}

#[test]
fn lookups_by_role_and_address() {
    let inv = Inventory {
        schema_version: Some(2),
        devices: vec![actuator("a.m1", "can0", 8), actuator("a.m2", "can1", 9)],
    };
    assert_eq!(inv.by_role("a.m2").unwrap().can_id(), 9);
    assert!(inv.by_role("zz").is_none());
    assert_eq!(inv.actuator_by_role("a.m1").unwrap().common.can_bus, "can0");
    assert_eq!(inv.by_can_id("can1", 9).unwrap().role(), "a.m2");
    assert!(inv.by_can_id("can0", 9).is_none());
    assert_eq!(inv.actuators().len(), 2);
    assert!(inv.sensors().is_empty());
}
