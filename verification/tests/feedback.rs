use rudydae::feedback::{feedback_from_type2, merge_aux};
use rudydae::types::{F32Bits, MotorFeedback};

fn b(v: f32) -> F32Bits {
    F32Bits(v.to_bits())
}

fn row() -> MotorFeedback {
    MotorFeedback {
        t_ms: 100,
        role: "shoulder_actuator_a".into(),
        can_id: 8,
        mech_pos_rad: b(0.5),
        mech_vel_rad_s: b(0.1),
        torque_nm: b(1.0),
        vbus_v: b(48.0),
        temp_c: b(30.0),
        fault_sta: 3,
        warn_sta: 1,
    }
}

#[test]
fn type2_keeps_bus_voltage_and_faults() {
    let prev = row();
    let r = feedback_from_type2(Some(&prev), 200, "shoulder_actuator_a", 8, b(0.6), b(0.2), b(1.5), b(31.0));
    assert_eq!(r.t_ms, 200);
    assert_eq!(r.mech_pos_rad, b(0.6));
    assert_eq!(r.vbus_v, b(48.0));
    assert_eq!(r.fault_sta, 3);
    assert_eq!(r.warn_sta, 0);
    let fresh = feedback_from_type2(None, 200, "shoulder_actuator_a", 8, b(0.6), b(0.2), b(1.5), b(31.0));
    assert_eq!(fresh.vbus_v, b(0.0));
    assert_eq!(fresh.fault_sta, 0);
}

#[test]
fn aux_read_updates_row_without_backdating() {
    let r = merge_aux(Some(row()), 999, "shoulder_actuator_a", 8, Some(b(47.5)), None);
    assert_eq!(r.t_ms, 100);
    assert_eq!(r.vbus_v, b(47.5));
    assert_eq!(r.fault_sta, 3);
    assert_eq!(r.mech_pos_rad, b(0.5));
    assert_eq!(r.warn_sta, 1);
}

#[test]
fn aux_read_seeds_a_partial_row() {
    let r = merge_aux(None, 999, "shoulder_actuator_a", 8, Some(b(47.5)), Some(4));
    assert_eq!(r.t_ms, 999);
    assert_eq!(r.role, "shoulder_actuator_a");
    assert_eq!(r.mech_pos_rad, b(0.0));
    assert_eq!(r.vbus_v, b(47.5));
    assert_eq!(r.fault_sta, 4);
    let s = merge_aux(None, 5, "shoulder_actuator_a", 8, None, None);
    assert_eq!(s.vbus_v, b(0.0));
    assert_eq!(s.fault_sta, 0);
}
