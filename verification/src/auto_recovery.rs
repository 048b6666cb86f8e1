//! Decisions of boot-time auto-recovery: a motor that boots a little
//! outside its travel band is driven back inside, once per daemon
//! lifetime, when it is close enough.
//!
//! The distance to the band and the recovery target are measured angles
//! and are computed by the caller; the drive loop runs in the daemon.
use vstd::prelude::*;

use crate::boot_state::{after_transition, classified, BandReading, BootState, BootStates, state_in};
use crate::gates::motor_for;
use crate::inventory::Inventory;
use crate::rolemap::RoleSet;
use crate::types::F32Bits;

verus! {

/// Why an auto-recovery attempt did not succeed.
#[derive(Debug, Clone, Copy, PartialEq, Eq, Structural)]
pub enum FailReason {
    Disabled,
    BudgetExceeded { delta_rad: F32Bits },
    AlreadyAttempted,
    InventoryGone,
    NoBand,
    InBand,
    TrackingError { last_pos_rad: F32Bits },
    Fault { last_pos_rad: F32Bits, fault_sta: u32 },
    Timeout { last_pos_rad: F32Bits },
    PathViolation { last_pos_rad: F32Bits },
    NoCanCore,
}

pub open spec fn fail_label(r: FailReason) -> Seq<char> {
    match r {
        FailReason::Disabled => "disabled_by_config"@,
        FailReason::BudgetExceeded { .. } => "budget_exceeded"@,
        FailReason::AlreadyAttempted => "already_attempted"@,
        FailReason::InventoryGone => "inventory_gone"@,
        FailReason::NoBand => "no_band"@,
        FailReason::InBand => "in_band"@,
        FailReason::TrackingError { .. } => "tracking_error"@,
        FailReason::Fault { .. } => "fault"@,
        FailReason::Timeout { .. } => "timeout"@,
        FailReason::PathViolation { .. } => "path_violation"@,
        FailReason::NoCanCore => "no_can_core"@,
    }
}

impl FailReason {
    /// Label carried in audit entries and safety events.
    pub fn label(&self) -> (s: &'static str)
        ensures
            s@ == fail_label(*self),
    {
        match self {
            FailReason::Disabled => "disabled_by_config",
            FailReason::BudgetExceeded { .. } => "budget_exceeded",
            FailReason::AlreadyAttempted => "already_attempted",
            FailReason::InventoryGone => "inventory_gone",
            FailReason::NoBand => "no_band",
            FailReason::InBand => "in_band",
            FailReason::TrackingError { .. } => "tracking_error",
            FailReason::Fault { .. } => "fault",
            FailReason::Timeout { .. } => "timeout",
            FailReason::PathViolation { .. } => "path_violation",
            FailReason::NoCanCore => "no_can_core",
        }
    }
}

/// First decision of an auto-recovery attempt.
#[derive(Debug, Clone, Copy, PartialEq, Eq, Structural)]
pub enum RecoveryStart {
    /// Refused with a reason to report.
    Refused(FailReason),
    /// Already tried in this daemon lifetime: silently skipped.
    AlreadyAttempted,
    /// Go on with the motor's travel band.
    Band { min_rad: F32Bits, max_rad: F32Bits },
}

pub open spec fn recovery_start_spec(
    enabled: bool,
    attempted: Set<Seq<char>>,
    inv: Inventory,
    role: Seq<char>,
) -> (RecoveryStart, Set<Seq<char>>) {
    if !enabled {
        (RecoveryStart::Refused(FailReason::Disabled), attempted)
    } else if attempted.contains(role) {
        (RecoveryStart::AlreadyAttempted, attempted)
    } else {
        (
            match motor_for(inv.devices@, role) {
                None => RecoveryStart::Refused(FailReason::InventoryGone),
                Some(a) => match a.common.travel_limits {
                    None => RecoveryStart::Refused(FailReason::NoBand),
                    Some(l) => RecoveryStart::Band { min_rad: l.min_rad, max_rad: l.max_rad },
                },
            },
            attempted.insert(role),
        )
    }
}

/// Master switch, once-per-lifetime gate, and the motor's band. A role is
/// marked attempted as soon as the switch lets it through.
pub fn recovery_start(enabled: bool, attempted: &mut RoleSet, inv: &Inventory, role: &str) -> (r: RecoveryStart)
    requires
        old(attempted).wf(),
    ensures
        final(attempted).wf(),
        (r, final(attempted)@) == recovery_start_spec(enabled, old(attempted)@, *inv, role@),
{
    if !enabled {
        return RecoveryStart::Refused(FailReason::Disabled);
    }
    if attempted.contains(role) {
        return RecoveryStart::AlreadyAttempted;
    }
    let _ = attempted.insert(role);
    match inv.actuator_by_role(role) {
        None => RecoveryStart::Refused(FailReason::InventoryGone),
        Some(a) => match &a.common.travel_limits {
            None => RecoveryStart::Refused(FailReason::NoBand),
            Some(l) => RecoveryStart::Band { min_rad: l.min_rad, max_rad: l.max_rad },
        },
    }
}

/// Drive-loop timing: tick of at least 5 ms, overall timeout of at least
/// one second.
pub fn recovery_timing(tick_interval_ms: u32, homer_timeout_ms: u32) -> (r: (u64, u64))
    ensures
        r.0 == (if tick_interval_ms < 5 { 5 } else { tick_interval_ms }),
        r.1 == (if homer_timeout_ms < 1000 { 1000 } else { homer_timeout_ms }),
{
    let tick: u64 = if tick_interval_ms < 5 { 5 } else { tick_interval_ms as u64 };
    let timeout: u64 = if homer_timeout_ms < 1000 { 1000 } else { homer_timeout_ms as u64 };
    (tick, timeout)
}

/// A successful recovery: the motor is re-classified from scratch at its
/// final position.
pub fn finalize_success(states: &mut BootStates, role: &str, reading: BandReading)
    requires
        old(states).wf(),
    ensures
        final(states).wf(),
        final(states)@ == after_transition(
            old(states)@.insert(role@, BootState::Unknown),
            role@,
            classified(reading),
        ),
{
    states.reset_to_unknown(role);
    let _ = states.classify(role, reading);
}

/// A failed recovery leaves the motor out of band at its last (wrapped)
/// position when it has a band; otherwise the state is unchanged.
pub fn finalize_failure(states: &mut BootStates, inv: &Inventory, role: &str, last_principal_rad: F32Bits)
    requires
        old(states).wf(),
    ensures
        final(states).wf(),
        match motor_for(inv.devices@, role@) {
            Some(a) => match a.common.travel_limits {
                Some(l) => final(states)@ == old(states)@.insert(
                    role@,
                    BootState::OutOfBand {
                        mech_pos_rad: last_principal_rad,
                        min_rad: l.min_rad,
                        max_rad: l.max_rad,
                    },
                ),
                None => final(states)@ == old(states)@,
            },
            None => final(states)@ == old(states)@,
        },
{
    match inv.actuator_by_role(role) {
        Some(a) => match &a.common.travel_limits {
            Some(l) => states.force_set(
                role,
                BootState::OutOfBand {
                    mech_pos_rad: last_principal_rad,
                    min_rad: l.min_rad,
                    max_rad: l.max_rad,
                },
            ),
            None => {},
        },
        None => {},
    }
}

/// After a successful recovery the motor is never left homed: it must be
/// re-homed before it can be enabled.
pub proof fn law_recovery_never_grants_enable(m: Map<Seq<char>, BootState>, role: Seq<char>, reading: BandReading)
    ensures
        !(state_in(
            after_transition(m.insert(role, BootState::Unknown), role, classified(reading)),
            role,
        ) is Homed),
{
}

/// Auto-recovery runs at most once per role per daemon lifetime.
pub proof fn law_recovery_once_per_role(enabled: bool, attempted: Set<Seq<char>>, inv: Inventory, role: Seq<char>)
    ensures
        ({
            let after = recovery_start_spec(enabled, attempted, inv, role).1;
            enabled ==> recovery_start_spec(enabled, after, inv, role).0 == RecoveryStart::AlreadyAttempted
        }),
{
}

} // verus!
