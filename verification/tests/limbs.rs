use rudydae::inventory::{Actuator, ActuatorCommon, ActuatorFamily, Device, Inventory, RobstrideModel};
use rudydae::limbs::ordered_actuators_per_limb;

fn motor(role: &str, id: u8, present: bool, limb: Option<&str>) -> Device {
    Device::Actuator(Actuator {
        common: ActuatorCommon {
            role: role.into(),
            can_bus: "can0".into(),
            can_id: id,
            present,
            verified: true,
            commissioned_at: None,
            firmware_version: None,
            travel_limits: None,
            commissioned_zero_offset: None,
            predefined_home_rad: None,
            limb: limb.map(|l| l.to_string()),
            joint_kind: None,
            notes_yaml: None,
        },
        family: ActuatorFamily::Robstride { model: RobstrideModel::Rs03 },
    })
}

#[test]
fn actuators_grouped_by_limb_in_name_order() {
    let inv = Inventory {
        schema_version: Some(2),
        devices: vec![
            motor("right_arm.shoulder_pitch", 1, true, Some("right_arm")),
            motor("left_arm.shoulder_pitch", 2, true, Some("left_arm")),
            motor("right_arm.elbow_pitch", 3, true, Some("right_arm")),
            motor("spare_actuator", 4, true, None),
            motor("left_arm.elbow_pitch", 5, false, Some("left_arm")),
        ],
    };
    let g = ordered_actuators_per_limb(&inv, &Vec::new());
    assert_eq!(
        g,
        vec![
            ("left_arm".to_string(), vec!["left_arm.shoulder_pitch".to_string()]),
            (
                "right_arm".to_string(),
                vec!["right_arm.shoulder_pitch".to_string(), "right_arm.elbow_pitch".to_string()]
            ),
        ]
    );
}

#[test]
fn no_limbs_means_no_groups() {
    let inv = Inventory { schema_version: Some(2), devices: vec![motor("spare_actuator", 4, true, None)] };
    assert!(ordered_actuators_per_limb(&inv, &Vec::new()).is_empty());
}

fn jointed(role: &str, id: u8, limb: &str, joint: Option<&str>) -> Device {
    let mut d = motor(role, id, true, Some(limb));
    if let Device::Actuator(a) = &mut d {
        a.common.joint_kind = joint.map(|j| j.to_string());
    }
    d
}

#[test]
fn limb_motors_are_sorted_by_home_order_and_stable() {
    let inv = Inventory {
        schema_version: Some(2),
        devices: vec![
            jointed("left_arm.wrist_roll", 1, "left_arm", Some("wrist_roll")),
            jointed("left_arm.spare", 2, "left_arm", None),
            jointed("left_arm.elbow_pitch", 3, "left_arm", Some("elbow_pitch")),
            jointed("left_arm.shoulder_pitch", 4, "left_arm", Some("shoulder_pitch")),
            jointed("left_arm.unlisted", 5, "left_arm", Some("tail_yaw")),
            jointed("left_arm.shoulder_roll", 6, "left_arm", Some("shoulder_roll")),
        ],
    };
    let order = vec![
        ("shoulder_pitch".to_string(), 0u8),
        ("shoulder_roll".to_string(), 1u8),
        ("elbow_pitch".to_string(), 2u8),
        ("wrist_roll".to_string(), 3u8),
    ];
    let g = ordered_actuators_per_limb(&inv, &order);
    assert_eq!(g.len(), 1);
    assert_eq!(g[0].0, "left_arm");
    assert_eq!(
        g[0].1,
        vec![
            "left_arm.shoulder_pitch".to_string(),
            "left_arm.shoulder_roll".to_string(),
            "left_arm.elbow_pitch".to_string(),
            "left_arm.wrist_roll".to_string(),
            // Rank 255, in inventory order: no joint kind, then an unlisted one.
            "left_arm.spare".to_string(),
            "left_arm.unlisted".to_string(),
        ]
    );
}
