//! Step rules of the two zero-offset flows: `POST /commission` (zero,
//! flash, read back, record) and `POST /restore_offset` (write the recorded
//! offset back after an `OffsetChanged`, read back, re-arm the boot flow).
//!
//! CAN traffic and the inventory file write happen in the daemon; what
//! they produced comes back here as plain values. Whether two offsets
//! agree within `commission_readback_tolerance_rad` is judged by the
//! caller on the decoded floats.
use vstd::prelude::*;

use crate::boot_state::{BootState, BootStates, state_in};
use crate::gates::motor_for;
use crate::inventory::{dev_role, Actuator, ActuatorCommon, Device, Inventory};
use crate::rolemap::RoleSet;
use crate::types::F32Bits;

verus! {

/// Is the encoded `f32` finite (exponent field not all ones)?
pub open spec fn finite_bits(b: F32Bits) -> bool {
    (b.0 >> 23u32) & 0xffu32 != 0xffu32
}

/// `f32::is_finite` on the encoding.
pub fn is_finite_bits(b: F32Bits) -> (r: bool)
    ensures
        r == finite_bits(b),
{
    (b.0 >> 23u32) & 0xffu32 != 0xffu32
}

/// Where a commission stopped.
#[derive(Debug, Clone, Copy, PartialEq, Eq, Structural)]
pub enum CommissionFailure {
    LockHeld,
    UnknownMotor,
    MotorAbsent,
    SetZeroFailed,
    SaveFailed,
    ReadFailed,
    /// The firmware reported a non-finite offset.
    ReadbackNonFinite,
    InventoryWrite,
}

pub open spec fn commission_step_label(f: CommissionFailure) -> Seq<char> {
    match f {
        CommissionFailure::LockHeld => "step 1 (lock_held)"@,
        CommissionFailure::UnknownMotor => "step 2 (unknown_motor)"@,
        CommissionFailure::MotorAbsent => "step 2 (motor_absent)"@,
        CommissionFailure::SetZeroFailed => "step 3 (set_zero)"@,
        CommissionFailure::SaveFailed => "step 4 (save_to_flash)"@,
        CommissionFailure::ReadFailed => "step 6 (read_add_offset)"@,
        CommissionFailure::ReadbackNonFinite => "step 6 (readback)"@,
        CommissionFailure::InventoryWrite => "step 7 (inventory_write)"@,
    }
}

pub open spec fn commission_status(f: CommissionFailure) -> u16 {
    match f {
        CommissionFailure::LockHeld => 423,
        CommissionFailure::UnknownMotor => 404,
        CommissionFailure::MotorAbsent => 409,
        CommissionFailure::InventoryWrite => 500,
        _ => 502,
    }
}

impl CommissionFailure {
    /// The step descriptor carried in the audit entry and the detail.
    pub fn step(&self) -> (s: &'static str)
        ensures
            s@ == commission_step_label(*self),
    {
        match self {
            CommissionFailure::LockHeld => "step 1 (lock_held)",
            CommissionFailure::UnknownMotor => "step 2 (unknown_motor)",
            CommissionFailure::MotorAbsent => "step 2 (motor_absent)",
            CommissionFailure::SetZeroFailed => "step 3 (set_zero)",
            CommissionFailure::SaveFailed => "step 4 (save_to_flash)",
            CommissionFailure::ReadFailed => "step 6 (read_add_offset)",
            CommissionFailure::ReadbackNonFinite => "step 6 (readback)",
            CommissionFailure::InventoryWrite => "step 7 (inventory_write)",
        }
    }

    /// HTTP status of the failure.
    pub fn status(&self) -> (s: u16)
        ensures
            s == commission_status(*self),
    {
        match self {
            CommissionFailure::LockHeld => 423,
            CommissionFailure::UnknownMotor => 404,
            CommissionFailure::MotorAbsent => 409,
            CommissionFailure::InventoryWrite => 500,
            _ => 502,
        }
    }
}

/// Commission admission (after the control lock): the motor exists and is
/// present.
pub fn commission_precheck<'a>(inv: &'a Inventory, role: &str) -> (r: Result<&'a Actuator, CommissionFailure>)
    ensures
        match motor_for(inv.devices@, role@) {
            None => r == Err::<&Actuator, CommissionFailure>(CommissionFailure::UnknownMotor),
            Some(a) => if a.common.present {
                r matches Ok(x) && *x == a
            } else {
                r == Err::<&Actuator, CommissionFailure>(CommissionFailure::MotorAbsent)
            },
        },
{
    match inv.actuator_by_role(role) {
        None => Err(CommissionFailure::UnknownMotor),
        Some(a) => if a.common.present {
            Ok(a)
        } else {
            Err(CommissionFailure::MotorAbsent)
        },
    }
}

/// What the zero / flash / read-back sequence on the bus produced.
#[derive(Debug, Clone, Copy, PartialEq, Eq, Structural)]
pub enum CommissionBusOutcome {
    SetZeroFailed,
    SaveFailed,
    ReadFailed,
    /// `add_offset` read back after the flash write.
    Readback(F32Bits),
}

/// The offset to record, or where the bus sequence failed.
pub fn commission_readback(o: CommissionBusOutcome) -> (r: Result<F32Bits, CommissionFailure>)
    ensures
        r == match o {
            CommissionBusOutcome::SetZeroFailed => Err(CommissionFailure::SetZeroFailed),
            CommissionBusOutcome::SaveFailed => Err(CommissionFailure::SaveFailed),
            CommissionBusOutcome::ReadFailed => Err(CommissionFailure::ReadFailed),
            CommissionBusOutcome::Readback(b) => if finite_bits(b) {
                Ok(b)
            } else {
                Err(CommissionFailure::ReadbackNonFinite)
            },
        },
{
    match o {
        CommissionBusOutcome::SetZeroFailed => Err(CommissionFailure::SetZeroFailed),
        CommissionBusOutcome::SaveFailed => Err(CommissionFailure::SaveFailed),
        CommissionBusOutcome::ReadFailed => Err(CommissionFailure::ReadFailed),
        CommissionBusOutcome::Readback(b) => if is_finite_bits(b) {
            Ok(b)
        } else {
            Err(CommissionFailure::ReadbackNonFinite)
        },
    }
}

/// Is row `d` the actuator `role`?
pub open spec fn is_actuator_with_role(d: Device, role: Seq<char>) -> bool {
    d is Actuator && dev_role(d) == role
}

/// Record a commissioning in the inventory: the first actuator with the
/// role gets the offset and the timestamp. `false` (nothing changed) when
/// there is no such actuator.
pub fn apply_commission(inv: &mut Inventory, role: &str, offset: F32Bits, at: String) -> (found: bool)
    ensures
        final(inv).schema_version == old(inv).schema_version,
        found == exists|i: int|
            0 <= i < old(inv).devices@.len() && is_actuator_with_role(
                #[trigger] old(inv).devices@[i],
                role@,
            ),
        !found ==> final(inv).devices@ == old(inv).devices@,
        found ==> exists|i: int|
            0 <= i < old(inv).devices@.len() && is_actuator_with_role(old(inv).devices@[i], role@)
                && (forall|j: int|
                0 <= j < i ==> !is_actuator_with_role(#[trigger] old(inv).devices@[j], role@)) && (
            old(inv).devices@[i] matches Device::Actuator(a) && final(inv).devices@[i]
                == Device::Actuator(
                Actuator {
                    common: ActuatorCommon {
                        commissioned_zero_offset: Some(offset),
                        commissioned_at: Some(at),
                        ..a.common
                    },
                    ..a
                },
            )) && final(inv).devices@.len() == old(inv).devices@.len() && forall|j: int|
                0 <= j < old(inv).devices@.len() && j != i ==> #[trigger] final(inv).devices@[j]
                    == old(inv).devices@[j],
{
    let ghost devs0 = inv.devices@;
    let mut i: usize = 0;
    while i < inv.devices.len()
        invariant
            inv.devices@ == devs0,
            devs0 == old(inv).devices@,
            inv.schema_version == old(inv).schema_version,
            i <= devs0.len(),
            forall|j: int| 0 <= j < i ==> !is_actuator_with_role(#[trigger] devs0[j], role@),
        decreases devs0.len() - i,
    {
        let hit = match &inv.devices[i] {
            Device::Actuator(a) => crate::text::str_eq(a.common.role.as_str(), role),
            _ => false,
        };
        if hit {
            assert(is_actuator_with_role(devs0[i as int], role@));
            let d = inv.devices.remove(i);
            match d {
                Device::Actuator(mut a) => {
                    a.common.commissioned_zero_offset = Some(offset);
                    a.common.commissioned_at = Some(at);
                    inv.devices.insert(i, Device::Actuator(a));
                    assert(inv.devices@ =~= devs0.update(i as int, Device::Actuator(a)));
                    return true;
                },
                _ => {
                    inv.devices.insert(i, d);
                    assert(inv.devices@ =~= devs0);
                    return false;
                },
            }
        }
        i = i + 1;
    }
    false
}

/// Where an offset restore stopped.
#[derive(Debug, Clone, Copy, PartialEq, Eq, Structural)]
pub enum RestoreFailure {
    LockHeld,
    UnknownMotor,
    MotorAbsent,
    /// The motor has no `commissioned_zero_offset`.
    NotCommissioned,
    /// The recorded offset is not finite.
    BadInventory,
    /// The motor is not in `OffsetChanged`: nothing to restore.
    WrongBootState,
    /// The offset recorded in the boot state and the inventory disagree.
    InventoryBootMismatch,
    WriteFailed,
    ReadFailed,
    ReadbackNonFinite,
    /// The read-back disagrees with the recorded offset.
    ReadbackMismatch,
}

pub open spec fn restore_step_label(f: RestoreFailure) -> Seq<char> {
    match f {
        RestoreFailure::LockHeld => "step 1 (lock_held)"@,
        RestoreFailure::UnknownMotor => "step 2 (unknown_motor)"@,
        RestoreFailure::MotorAbsent => "step 2 (motor_absent)"@,
        RestoreFailure::NotCommissioned => "step 3 (not_commissioned)"@,
        RestoreFailure::BadInventory => "step 3 (bad_inventory)"@,
        RestoreFailure::WrongBootState => "step 4 (wrong_boot_state)"@,
        RestoreFailure::InventoryBootMismatch => "step 4 (inventory_boot_mismatch)"@,
        RestoreFailure::WriteFailed => "step 5 (write_add_offset_persisted)"@,
        RestoreFailure::ReadFailed => "step 6 (read_add_offset)"@,
        RestoreFailure::ReadbackNonFinite => "step 6 (readback)"@,
        RestoreFailure::ReadbackMismatch => "step 7 (readback_mismatch)"@,
    }
}

pub open spec fn restore_status(f: RestoreFailure) -> u16 {
    match f {
        RestoreFailure::LockHeld => 423,
        RestoreFailure::UnknownMotor => 404,
        RestoreFailure::WriteFailed => 502,
        RestoreFailure::ReadFailed => 502,
        RestoreFailure::ReadbackNonFinite => 502,
        RestoreFailure::ReadbackMismatch => 502,
        _ => 409,
    }
}

impl RestoreFailure {
    pub fn step(&self) -> (s: &'static str)
        ensures
            s@ == restore_step_label(*self),
    {
        match self {
            RestoreFailure::LockHeld => "step 1 (lock_held)",
            RestoreFailure::UnknownMotor => "step 2 (unknown_motor)",
            RestoreFailure::MotorAbsent => "step 2 (motor_absent)",
            RestoreFailure::NotCommissioned => "step 3 (not_commissioned)",
            RestoreFailure::BadInventory => "step 3 (bad_inventory)",
            RestoreFailure::WrongBootState => "step 4 (wrong_boot_state)",
            RestoreFailure::InventoryBootMismatch => "step 4 (inventory_boot_mismatch)",
            RestoreFailure::WriteFailed => "step 5 (write_add_offset_persisted)",
            RestoreFailure::ReadFailed => "step 6 (read_add_offset)",
            RestoreFailure::ReadbackNonFinite => "step 6 (readback)",
            RestoreFailure::ReadbackMismatch => "step 7 (readback_mismatch)",
        }
    }

    pub fn status(&self) -> (s: u16)
        ensures
            s == restore_status(*self),
    {
        match self {
            RestoreFailure::LockHeld => 423,
            RestoreFailure::UnknownMotor => 404,
            RestoreFailure::WriteFailed => 502,
            RestoreFailure::ReadFailed => 502,
            RestoreFailure::ReadbackNonFinite => 502,
            RestoreFailure::ReadbackMismatch => 502,
            _ => 409,
        }
    }
}

/// The two offsets a restore compares: the inventory's commissioned one
/// and the one recorded when the mismatch was detected.
#[derive(Debug, Clone, Copy, PartialEq, Eq, Structural)]
pub struct RestorePlan {
    pub commissioned_rad: F32Bits,
    pub offset_changed_stored_rad: F32Bits,
}

/// Restore admission after the control lock (steps 2 to 4, before the
/// agreement check of the two recorded offsets).
pub open spec fn restore_precheck_spec(m: Option<Actuator>, bs: BootState) -> Result<RestorePlan, RestoreFailure> {
    match m {
        None => Err(RestoreFailure::UnknownMotor),
        Some(a) => if !a.common.present {
            Err(RestoreFailure::MotorAbsent)
        } else {
            match a.common.commissioned_zero_offset {
                None => Err(RestoreFailure::NotCommissioned),
                Some(c) => if !finite_bits(c) {
                    Err(RestoreFailure::BadInventory)
                } else {
                    match bs {
                        BootState::OffsetChanged { stored_rad, .. } => Ok(
                            RestorePlan { commissioned_rad: c, offset_changed_stored_rad: stored_rad },
                        ),
                        _ => Err(RestoreFailure::WrongBootState),
                    }
                },
            }
        },
    }
}

pub fn restore_precheck(inv: &Inventory, states: &BootStates, role: &str) -> (r: Result<RestorePlan, RestoreFailure>)
    requires
        states.wf(),
    ensures
        r == restore_precheck_spec(motor_for(inv.devices@, role@), state_in(states@, role@)),
{
    let a = match inv.actuator_by_role(role) {
        None => return Err(RestoreFailure::UnknownMotor),
        Some(a) => a,
    };
    if !a.common.present {
        return Err(RestoreFailure::MotorAbsent);
    }
    let c = match a.common.commissioned_zero_offset {
        None => return Err(RestoreFailure::NotCommissioned),
        Some(c) => c,
    };
    if !is_finite_bits(c) {
        return Err(RestoreFailure::BadInventory);
    }
    match states.current(role) {
        BootState::OffsetChanged { stored_rad, .. } => Ok(
            RestorePlan { commissioned_rad: c, offset_changed_stored_rad: stored_rad },
        ),
        _ => Err(RestoreFailure::WrongBootState),
    }
}

/// What the write / read-back sequence on the bus produced, with the
/// caller's verdict on the read-back's agreement with the commissioned
/// offset.
#[derive(Debug, Clone, Copy, PartialEq, Eq, Structural)]
pub enum RestoreBusOutcome {
    WriteFailed,
    ReadFailed,
    Readback { value: F32Bits, agrees: bool },
}

pub open spec fn restore_outcome_spec(o: RestoreBusOutcome) -> Result<F32Bits, RestoreFailure> {
    match o {
        RestoreBusOutcome::WriteFailed => Err(RestoreFailure::WriteFailed),
        RestoreBusOutcome::ReadFailed => Err(RestoreFailure::ReadFailed),
        RestoreBusOutcome::Readback { value, agrees } => if !finite_bits(value) {
            Err(RestoreFailure::ReadbackNonFinite)
        } else if !agrees {
            Err(RestoreFailure::ReadbackMismatch)
        } else {
            Ok(value)
        },
    }
}

/// Finish a restore: on a good read-back the motor goes back to `Unknown`
/// (telemetry re-classifies it) and the boot orchestrator may run again;
/// on any failure nothing changes.
pub fn restore_finish(
    o: RestoreBusOutcome,
    states: &mut BootStates,
    attempted: &mut RoleSet,
    role: &str,
) -> (r: Result<F32Bits, RestoreFailure>)
    requires
        old(states).wf(),
        old(attempted).wf(),
    ensures
        final(states).wf(),
        final(attempted).wf(),
        r == restore_outcome_spec(o),
        r is Ok ==> final(states)@ == old(states)@.insert(role@, BootState::Unknown)
            && final(attempted)@ == old(attempted)@.remove(role@),
        r is Err ==> final(states)@ == old(states)@ && final(attempted)@ == old(attempted)@,
{
    let v = match o {
        RestoreBusOutcome::WriteFailed => return Err(RestoreFailure::WriteFailed),
        RestoreBusOutcome::ReadFailed => return Err(RestoreFailure::ReadFailed),
        RestoreBusOutcome::Readback { value, agrees } => {
            if !is_finite_bits(value) {
                return Err(RestoreFailure::ReadbackNonFinite);
            }
            if !agrees {
                return Err(RestoreFailure::ReadbackMismatch);
            }
            value
        },
    };
    states.reset_to_unknown(role);
    let _ = attempted.remove(role);
    Ok(v)
}

/// A restore only ever proceeds from `OffsetChanged`, and a completed one
/// leaves the motor `Unknown` (so it cannot be enabled until re-homed) and
/// re-arms the boot orchestrator for it.
pub proof fn law_restore_only_from_offset_changed(
    m: Option<Actuator>,
    bs: BootState,
    states: Map<Seq<char>, BootState>,
    attempted: Set<Seq<char>>,
    role: Seq<char>,
)
    ensures
        restore_precheck_spec(m, bs) is Ok ==> bs is OffsetChanged,
        state_in(states.insert(role, BootState::Unknown), role) is Unknown,
        !attempted.remove(role).contains(role),
{
}

} // verus!
