//! One-shot conversion of a v1 inventory (a flat `motors:` list) to schema
//! v2 (`devices:` with tagged rows). Every v1 motor was a RobStride RS03.
use vstd::prelude::*;

use crate::inventory::{
    inventory_violation, Actuator, ActuatorCommon, ActuatorFamily, Device, Inventory,
    InventoryViolation, RobstrideModel, TravelLimits, INVENTORY_SCHEMA_V2,
};
use crate::types::F32Bits;

verus! {

/// One row of a v1 `motors:` list. Keys v1 did not know are carried as
/// the YAML text of that map (`notes_yaml`, absent when there were none).
#[derive(Debug)]
pub struct LegacyMotorV1 {
    pub role: String,
    pub can_bus: String,
    pub can_id: u8,
    pub firmware_version: Option<String>,
    pub verified: bool,
    pub commissioned_at: Option<String>,
    pub present: bool,
    pub travel_limits: Option<TravelLimits>,
    pub commissioned_zero_offset: Option<F32Bits>,
    pub predefined_home_rad: Option<F32Bits>,
    pub limb: Option<String>,
    pub joint_kind: Option<String>,
    pub notes_yaml: Option<String>,
}

/// The v2 row a v1 motor becomes.
pub open spec fn migrated(m: LegacyMotorV1) -> Device {
    Device::Actuator(
        Actuator {
            common: ActuatorCommon {
                role: m.role,
                can_bus: m.can_bus,
                can_id: m.can_id,
                present: m.present,
                verified: m.verified,
                commissioned_at: m.commissioned_at,
                firmware_version: m.firmware_version,
                travel_limits: m.travel_limits,
                commissioned_zero_offset: m.commissioned_zero_offset,
                predefined_home_rad: m.predefined_home_rad,
                limb: m.limb,
                joint_kind: m.joint_kind,
                notes_yaml: m.notes_yaml,
            },
            family: ActuatorFamily::Robstride { model: RobstrideModel::Rs03 },
        },
    )
}

pub open spec fn migrated_rows(rows: Seq<LegacyMotorV1>) -> Seq<Device> {
    rows.map_values(|m: LegacyMotorV1| migrated(m))
}

/// Convert v1 motors to a v2 inventory, in order, and validate it.
pub fn migrate_v1_rows(rows: Vec<LegacyMotorV1>) -> (r: Result<Inventory, InventoryViolation>)
    ensures
        match inventory_violation(migrated_rows(rows@)) {
            Some(v) => r matches Err(e) && e@ == v,
            None => r matches Ok(inv) && inv.schema_version == Some(INVENTORY_SCHEMA_V2)
                && inv.devices@ == migrated_rows(rows@),
        },
{
    let ghost src = rows@;
    let mut devices: Vec<Device> = Vec::new();
    let mut rest = rows;
    let ghost mut k: int = 0;
    while rest.len() > 0
        invariant
            0 <= k <= src.len(),
            rest@ == src.skip(k),
            devices@ == migrated_rows(src.take(k)),
        decreases rest@.len(),
    {
        let m = rest.remove(0);
        proof {
            assert(m == src[k]);
            assert(src.take(k + 1) =~= src.take(k).push(src[k]));
            assert(src.skip(k + 1) =~= src.skip(k).drop_first());
        }
        let d = Device::Actuator(
            Actuator {
                common: ActuatorCommon {
                    role: m.role,
                    can_bus: m.can_bus,
                    can_id: m.can_id,
                    present: m.present,
                    verified: m.verified,
                    commissioned_at: m.commissioned_at,
                    firmware_version: m.firmware_version,
                    travel_limits: m.travel_limits,
                    commissioned_zero_offset: m.commissioned_zero_offset,
                    predefined_home_rad: m.predefined_home_rad,
                    limb: m.limb,
                    joint_kind: m.joint_kind,
                    notes_yaml: m.notes_yaml,
                },
                family: ActuatorFamily::Robstride { model: RobstrideModel::Rs03 },
            },
        );
        devices.push(d);
        proof {
            assert(migrated_rows(src.take(k + 1)) =~= migrated_rows(src.take(k)).push(migrated(src[k])));
            k = k + 1;
        }
    }
    proof {
        assert(src.skip(k).len() == 0);
        assert(src.take(k) =~= src);
    }
    let inv = Inventory { schema_version: Some(INVENTORY_SCHEMA_V2), devices };
    match inv.validate() {
        Err(e) => Err(e),
        Ok(()) => Ok(inv),
    }
}

} // verus!
