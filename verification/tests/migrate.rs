use std::collections::BTreeMap;

use rudydae::inventory::{ActuatorFamily, InventoryViolation, RobstrideModel};
use rudydae::migrate::{migrate_v1_rows, LegacyMotorV1};

fn legacy(role: &str, bus: &str, id: u8) -> LegacyMotorV1 {
    LegacyMotorV1 {
        role: role.into(),
        can_bus: bus.into(),
        can_id: id,
        firmware_version: None,
        verified: false,
        commissioned_at: None,
        present: true,
        travel_limits: None,
        commissioned_zero_offset: None,
        predefined_home_rad: None,
        limb: None,
        joint_kind: None,
        notes_yaml: None,
    }
}

#[test]
fn migration_preserves_extra_as_notes_yaml() {
    // The v1 row carried `sourced_from: bench`, a key v1 did not know.
    let mut extra: BTreeMap<String, serde_yaml::Value> = BTreeMap::new();
    extra.insert("sourced_from".into(), serde_yaml::Value::String("bench".into()));
    let mut m = legacy("shoulder_actuator_a", "can1", 8);
    m.notes_yaml = Some(serde_yaml::to_string(&extra).expect("yaml"));
    let inv = migrate_v1_rows(vec![m]).expect("migrate");
    let a = inv.actuator_by_role("shoulder_actuator_a").expect("actuator");
    assert!(a.common.notes_yaml.is_some());
    assert!(a.common.notes_yaml.as_ref().expect("notes").contains("sourced_from"));
}

#[test]
fn migration_makes_rs03_rows_in_order() {
    let inv = migrate_v1_rows(vec![legacy("shoulder_actuator_a", "can0", 8), legacy("elbow_actuator_b", "can0", 9)])
        .expect("migrate");
    assert_eq!(inv.schema_version, Some(2));
    assert_eq!(inv.devices.len(), 2);
    let a = inv.actuator_by_role("shoulder_actuator_a").expect("a");
    assert_eq!(a.common.can_id, 8);
    assert!(a.common.present);
    assert!(matches!(a.family, ActuatorFamily::Robstride { model: RobstrideModel::Rs03 }));
    let b = inv.actuator_by_role("elbow_actuator_b").expect("b");
    assert_eq!(b.common.can_id, 9);
}

#[test]
fn migration_of_empty_list_is_empty_v2() {
    let inv = migrate_v1_rows(Vec::new()).expect("migrate");
    assert_eq!(inv.schema_version, Some(2));
    assert!(inv.devices.is_empty());
}

#[test]
fn migration_validates_the_result() {
    let r = migrate_v1_rows(vec![legacy("shoulder_actuator_a", "can0", 8), legacy("elbow_actuator_b", "can0", 8)]);
    match r {
        Err(InventoryViolation::DuplicateAddress { can_bus, can_id }) => {
            assert_eq!(can_bus, "can0");
            assert_eq!(can_id, 8);
        }
        other => panic!("expected a duplicate address, got {other:?}"),
    }
}
