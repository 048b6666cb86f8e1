//! `GET /api/motors` and `GET /api/motors/:role`: one summary per motor,
//! built the same way for the list and for a single motor.
use vstd::prelude::*;

use crate::boot_state::BootState;
use crate::gates::opt_str_view;
use crate::inventory::{Actuator, TravelLimits};
use crate::text::copy_string;
use crate::types::{MotorFeedback, MotorSummary};

verus! {

fn copy_opt(o: &Option<String>) -> (r: Option<String>)
    ensures
        opt_str_view(r) == opt_str_view(*o),
{
    match o {
        Some(s) => Some(copy_string(s.as_str())),
        None => None,
    }
}

/// The band of a motor, as values.
pub open spec fn limits_view(l: Option<TravelLimits>) -> Option<(u32, u32, Option<Seq<char>>)> {
    match l {
        Some(t) => Some((t.min_rad.0, t.max_rad.0, opt_str_view(t.updated_at))),
        None => None,
    }
}

/// Summary of actuator `a` with its latest telemetry row and gate state.
pub fn summary_for(a: &Actuator, latest: Option<MotorFeedback>, boot_state: BootState) -> (r: MotorSummary)
    ensures
        r.role@ == a.common.role@,
        r.can_bus@ == a.common.can_bus@,
        r.can_id == a.common.can_id,
        opt_str_view(r.firmware_version) == opt_str_view(a.common.firmware_version),
        r.verified == a.common.verified,
        r.present == a.common.present,
        limits_view(r.travel_limits) == limits_view(a.common.travel_limits),
        r.latest == latest,
        r.boot_state == boot_state,
        opt_str_view(r.limb) == opt_str_view(a.common.limb),
        opt_str_view(r.joint_kind) == opt_str_view(a.common.joint_kind),
{
    let travel_limits = match &a.common.travel_limits {
        Some(t) => Some(TravelLimits { min_rad: t.min_rad, max_rad: t.max_rad, updated_at: copy_opt(&t.updated_at) }),
        None => None,
    };
    MotorSummary {
        role: copy_string(a.common.role.as_str()),
        can_bus: copy_string(a.common.can_bus.as_str()),
        can_id: a.common.can_id,
        firmware_version: copy_opt(&a.common.firmware_version),
        verified: a.common.verified,
        present: a.common.present,
        travel_limits,
        latest,
        boot_state,
        limb: copy_opt(&a.common.limb),
        joint_kind: copy_opt(&a.common.joint_kind),
    }
}

} // verus!
