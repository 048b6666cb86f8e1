use rudydae::boot_state::BootState;
use rudydae::control_lock::ControlGrant;
use rudydae::inventory::{Actuator, ActuatorCommon, ActuatorFamily, Device, Inventory, RobstrideModel};
use rudydae::state::AppState;

fn inventory_with(bus: &str, id: u8) -> Inventory {
    Inventory {
        schema_version: Some(2),
        devices: vec![Device::Actuator(Actuator {
            common: ActuatorCommon {
                role: "left.elbow".into(),
                can_bus: bus.into(),
                can_id: id,
                present: true,
                verified: true,
                commissioned_at: None,
                firmware_version: None,
                travel_limits: None,
                commissioned_zero_offset: None,
                predefined_home_rad: None,
                limb: None,
                joint_kind: None,
                notes_yaml: None,
            },
            family: ActuatorFamily::Robstride { model: RobstrideModel::Rs03 },
        })],
    }
}

#[test]
fn enabled_bit_follows_enable_and_stop() {
    let mut s = AppState::new();
    assert!(!s.is_enabled("a.m1"));
    s.mark_enabled("a.m1");
    s.mark_enabled("a.m1");
    assert!(s.is_enabled("a.m1"));
    s.mark_stopped("a.m1");
    assert!(!s.is_enabled("a.m1"));
    s.mark_stopped("a.m1");
    assert!(!s.is_enabled("a.m1"));
}

#[test]
fn passive_sighting_refreshes_and_upgrades_source() {
    let mut s = AppState::new();
    s.record_passive_seen_at("can0", 9, 100);
    s.record_passive_seen_at("can0", 9, 250);
    let inv = Inventory { schema_version: Some(2), devices: vec![] };
    let list = s.seen_can_ids.list_unassigned(&inv);
    assert_eq!(list.len(), 1);
    assert_eq!(list[0].bus, "can0");
    assert_eq!(list[0].can_id, 9);
    assert_eq!(list[0].first_seen_ms, 100);
    assert_eq!(list[0].last_seen_ms, 250);
    assert_eq!(list[0].source, "passive");
}

#[test]
fn unassigned_list_skips_inventoried_and_is_sorted() {
    let mut s = AppState::new();
    s.record_passive_seen_at("can1", 3, 1);
    s.record_passive_seen_at("can0", 9, 2);
    s.record_passive_seen_at("can0", 8, 3);
    s.record_passive_seen_at("can0", 2, 4);
    let inv = inventory_with("can0", 8);
    let list = s.seen_can_ids.list_unassigned(&inv);
    let keys: Vec<(String, u8)> = list.iter().map(|d| (d.bus.clone(), d.can_id)).collect();
    assert_eq!(
        keys,
        vec![("can0".to_string(), 2), ("can0".to_string(), 9), ("can1".to_string(), 3)]
    );
    assert!(list.iter().all(|d| d.family_hint.is_none()));
}

#[test]
fn record_passive_seen_stamps_wall_clock() {
    let mut s = AppState::new();
    s.record_passive_seen("can0", 1);
    let inv = Inventory { schema_version: Some(2), devices: vec![] };
    let list = s.seen_can_ids.list_unassigned(&inv);
    assert_eq!(list.len(), 1);
    assert!(list[0].first_seen_ms > 1_600_000_000_000);
}

#[test]
fn control_lock_claimed_by_first_named_session() {
    let mut s = AppState::new();
    assert_eq!(s.ensure_control(""), Ok(ControlGrant::Unclaimed));
    assert_eq!(s.ensure_control("tab-a"), Ok(ControlGrant::Claimed));
    assert_eq!(s.ensure_control("tab-a"), Ok(ControlGrant::AlreadyHeld));
    assert_eq!(s.ensure_control("tab-b"), Err("tab-a".to_string()));
}

#[test]
fn migrate_role_moves_boot_state_and_enabled_bit() {
    let mut s = AppState::new();
    s.boot_state.mark_homed("left.m1");
    s.mark_enabled("left.m1");
    s.migrate_role("left.m1", "left.elbow");
    assert!(matches!(s.boot_state.current("left.elbow"), BootState::Homed));
    assert!(matches!(s.boot_state.current("left.m1"), BootState::Unknown));
    assert!(s.is_enabled("left.elbow"));
    assert!(!s.is_enabled("left.m1"));
}
