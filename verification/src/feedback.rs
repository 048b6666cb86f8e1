//! The per-motor telemetry row (`latest[role]`): how a type-2 feedback
//! frame and a type-17 read of the auxiliary observables update it.
use vstd::prelude::*;

use crate::text::copy_string;
use crate::types::{F32Bits, MotorFeedback};

verus! {

/// IEEE-754 encoding of `0.0`.
pub open spec fn zero_bits() -> F32Bits {
    F32Bits(0)
}

/// Row after a type-2 frame: position, velocity, torque and temperature
/// from the frame; bus voltage and fault bits kept from the previous row
/// (zero when there is none); warnings cleared.
pub fn feedback_from_type2(
    prev: Option<&MotorFeedback>,
    t_ms: i64,
    role: &str,
    can_id: u8,
    pos_rad: F32Bits,
    vel_rad_s: F32Bits,
    torque_nm: F32Bits,
    temp_c: F32Bits,
) -> (r: MotorFeedback)
    ensures
        r.t_ms == t_ms,
        r.role@ == role@,
        r.can_id == can_id,
        r.mech_pos_rad == pos_rad,
        r.mech_vel_rad_s == vel_rad_s,
        r.torque_nm == torque_nm,
        r.temp_c == temp_c,
        r.vbus_v == (match prev {
            Some(p) => p.vbus_v,
            None => zero_bits(),
        }),
        r.fault_sta == (match prev {
            Some(p) => p.fault_sta,
            None => 0u32,
        }),
        r.warn_sta == 0,
{
    let (vbus_v, fault_sta) = match prev {
        Some(p) => (p.vbus_v, p.fault_sta),
        None => (F32Bits(0), 0u32),
    };
    MotorFeedback {
        t_ms,
        role: copy_string(role),
        can_id,
        mech_pos_rad: pos_rad,
        mech_vel_rad_s: vel_rad_s,
        torque_nm,
        vbus_v,
        temp_c,
        fault_sta,
        warn_sta: 0,
    }
}

/// Splice a fresh bus-voltage / fault-bits read into the motor's row.
/// An existing row keeps its timestamp (the type-2 frames own freshness);
/// without a row, a partial one is seeded at `now_ms` with zero motion.
pub fn merge_aux(
    prev: Option<MotorFeedback>,
    now_ms: i64,
    role: &str,
    can_id: u8,
    vbus_v: Option<F32Bits>,
    fault_sta: Option<u32>,
) -> (r: MotorFeedback)
    ensures
        match prev {
            Some(p) => {
                &&& r.t_ms == p.t_ms
                &&& r.role@ == p.role@
                &&& r.can_id == p.can_id
                &&& r.mech_pos_rad == p.mech_pos_rad
                &&& r.mech_vel_rad_s == p.mech_vel_rad_s
                &&& r.torque_nm == p.torque_nm
                &&& r.temp_c == p.temp_c
                &&& r.warn_sta == p.warn_sta
                &&& r.vbus_v == (match vbus_v {
                    Some(v) => v,
                    None => p.vbus_v,
                })
                &&& r.fault_sta == (match fault_sta {
                    Some(f) => f,
                    None => p.fault_sta,
                })
            },
            None => {
                &&& r.t_ms == now_ms
                &&& r.role@ == role@
                &&& r.can_id == can_id
                &&& r.mech_pos_rad == zero_bits()
                &&& r.mech_vel_rad_s == zero_bits()
                &&& r.torque_nm == zero_bits()
                &&& r.temp_c == zero_bits()
                &&& r.warn_sta == 0
                &&& r.vbus_v == (match vbus_v {
                    Some(v) => v,
                    None => zero_bits(),
                })
                &&& r.fault_sta == (match fault_sta {
                    Some(f) => f,
                    None => 0u32,
                })
            },
        },
{
    match prev {
        Some(mut row) => {
            match vbus_v {
                Some(v) => {
                    row.vbus_v = v;
                },
                None => {},
            }
            match fault_sta {
                Some(f) => {
                    row.fault_sta = f;
                },
                None => {},
            }
            row
        },
        None => MotorFeedback {
            t_ms: now_ms,
            role: copy_string(role),
            can_id,
            mech_pos_rad: F32Bits(0),
            mech_vel_rad_s: F32Bits(0),
            torque_nm: F32Bits(0),
            vbus_v: match vbus_v {
                Some(v) => v,
                None => F32Bits(0),
            },
            temp_c: F32Bits(0),
            fault_sta: match fault_sta {
                Some(f) => f,
                None => 0,
            },
            warn_sta: 0,
        },
    }
}

} // verus!
