//! Boot orchestrator: the per-motor "first valid telemetry" decisions that
//! verify the firmware's stored zero against the commissioning record and,
//! when it matches and the joint is in band, auto-home the motor.
//!
//! The orchestrator is a sequence of steps separated by outside work
//! (a CAN parameter read, a telemetry look-up, the slow-ramp homer). Each
//! step is a function here from the current state and what the outside work
//! produced to the next action; the daemon runs the loop around them.
//!
//! Idempotent within one daemon lifetime per role: the `attempted` set
//! records the roles already processed; it is cleared for a role whenever
//! a retry should be possible (missing motor, failed read-back, missing or
//! stale telemetry, joint out of band).
use vstd::prelude::*;

use crate::boot_state::{BootState, BootStates, ClassifyOutcome, state_in, zero_progress};
use crate::inventory::{Actuator, Device, Inventory, first_with_role};
use crate::rolemap::RoleSet;
use crate::types::F32Bits;

verus! {

/// Why an orchestrator run stopped without driving the motor.
#[derive(Debug, Clone, Copy, PartialEq, Eq, Structural)]
pub enum OrchestratorSkip {
    /// `safety.auto_home_on_boot` is off.
    Disabled,
    /// The role was already processed in this daemon lifetime.
    AlreadyAttempted,
    /// No actuator with that role in the inventory.
    MotorMissing,
    /// The motor has no `commissioned_zero_offset`.
    Uncommissioned,
    /// The `add_offset` read-back failed twice.
    ReadbackFailed,
    /// The firmware offset disagrees with the commissioning record.
    OffsetChanged { stored_rad: F32Bits, current_rad: F32Bits },
    /// No telemetry cached for the motor yet.
    NoTelemetry,
    /// The cached telemetry is older than the freshness limit.
    Stale,
    /// The joint sits outside its travel band.
    OutOfBand,
}

/// What the orchestrator carries from the inventory into the later steps.
#[derive(Debug, Clone, Copy, PartialEq, Eq, Structural)]
pub struct HomePlan {
    /// The commissioned zero offset the firmware must still hold.
    pub stored_offset_rad: F32Bits,
    /// Where to drive the motor: `predefined_home_rad`, or `0.0`.
    pub target_rad: F32Bits,
}

/// First step's decision.
#[derive(Debug)]
pub enum BeginStep {
    Skip(OrchestratorSkip),
    /// Read `add_offset` back from the firmware (with one retry).
    ReadOffset(HomePlan),
}

/// What the `add_offset` read-back produced, as judged against the
/// commissioning record with `commission_readback_tolerance_rad`.
#[derive(Debug, Clone, Copy, PartialEq, Eq, Structural)]
pub enum OffsetReadback {
    /// Both attempts failed.
    Failed,
    /// Within tolerance of the stored offset.
    Agrees,
    /// Further than the tolerance from the stored offset.
    Disagrees { current_rad: F32Bits },
}

/// Cached telemetry for the motor.
#[derive(Debug, Clone, Copy, PartialEq, Eq, Structural)]
pub struct TelemetrySample {
    /// When the sample was taken (Unix ms).
    pub t_ms: i64,
    pub mech_pos_rad: F32Bits,
    /// The wrapped position lies outside the motor's travel limits
    /// (always `false` when the motor has none).
    pub outside_band: bool,
}

/// Start the slow-ramp homer from `from_rad` toward `target_rad`.
#[derive(Debug, Clone, Copy, PartialEq, Eq, Structural)]
pub struct RampPlan {
    pub from_rad: F32Bits,
    pub target_rad: F32Bits,
}

/// How the slow-ramp homer ended.
#[derive(Debug)]
pub enum RampOutcome {
    Reached,
    Failed { reason: String, last_pos_rad: F32Bits },
}

/// The master switch and idempotency gate, as a spec value.
pub enum Gate {
    Disabled,
    AlreadyAttempted,
    Proceed,
}

pub open spec fn gate(enabled: bool, attempted: Set<Seq<char>>, role: Seq<char>) -> Gate {
    if !enabled {
        Gate::Disabled
    } else if attempted.contains(role) {
        Gate::AlreadyAttempted
    } else {
        Gate::Proceed
    }
}

/// The plan for an actuator, when it is commissioned.
pub open spec fn plan_for(a: Actuator) -> Option<HomePlan> {
    match a.common.commissioned_zero_offset {
        Some(stored) => Some(
            HomePlan {
                stored_offset_rad: stored,
                target_rad: match a.common.predefined_home_rad {
                    Some(t) => t,
                    None => F32Bits(0),
                },
            },
        ),
        None => None,
    }
}

/// First step: master switch, idempotency, inventory look-up and the
/// commissioning check.
pub open spec fn begin_spec(
    enabled: bool,
    attempted: Set<Seq<char>>,
    devs: Seq<Device>,
    role: Seq<char>,
) -> (Result<HomePlan, OrchestratorSkip>, Set<Seq<char>>) {
    match gate(enabled, attempted, role) {
        Gate::Disabled => (Err(OrchestratorSkip::Disabled), attempted),
        Gate::AlreadyAttempted => (Err(OrchestratorSkip::AlreadyAttempted), attempted),
        Gate::Proceed => match first_with_role(devs, role) {
            Some(Device::Actuator(a)) => match plan_for(a) {
                Some(p) => (Ok(p), attempted.insert(role)),
                None => (Err(OrchestratorSkip::Uncommissioned), attempted.insert(role)),
            },
            _ => (Err(OrchestratorSkip::MotorMissing), attempted),
        },
    }
}

pub open spec fn begin_view(s: BeginStep) -> Result<HomePlan, OrchestratorSkip> {
    match s {
        BeginStep::Skip(k) => Err(k),
        BeginStep::ReadOffset(p) => Ok(p),
    }
}

/// Decide the first step for `role`. Marks the role attempted unless the
/// orchestrator is disabled, already ran for it, or the motor is missing.
pub fn begin(enabled: bool, attempted: &mut RoleSet, inv: &Inventory, role: &str) -> (r: BeginStep)
    requires
        old(attempted).wf(),
    ensures
        final(attempted).wf(),
        begin_view(r) == begin_spec(enabled, old(attempted)@, inv.devices@, role@).0,
        final(attempted)@ == begin_spec(enabled, old(attempted)@, inv.devices@, role@).1,
{
    if !enabled {
        return BeginStep::Skip(OrchestratorSkip::Disabled);
    }
    if attempted.contains(role) {
        return BeginStep::Skip(OrchestratorSkip::AlreadyAttempted);
    }
    let _ = attempted.insert(role);
    let motor = match inv.actuator_by_role(role) {
        Some(a) => a,
        None => {
            let _ = attempted.remove(role);
            proof {
                assert(attempted@ =~= old(attempted)@);
            }
            return BeginStep::Skip(OrchestratorSkip::MotorMissing);
        },
    };
    match motor.common.commissioned_zero_offset {
        None => BeginStep::Skip(OrchestratorSkip::Uncommissioned),
        Some(stored) => {
            let target_rad = match motor.common.predefined_home_rad {
                Some(t) => t,
                None => F32Bits(0),
            };
            BeginStep::ReadOffset(HomePlan { stored_offset_rad: stored, target_rad })
        },
    }
}

/// Second step, after the firmware read-back: `None` means go on to the
/// telemetry check. A failed read clears the role for a retry; a
/// disagreeing offset parks the motor in `OffsetChanged` (the role stays
/// attempted: only an operator recovery re-enables auto-home).
pub fn after_readback(
    readback: OffsetReadback,
    plan: &HomePlan,
    attempted: &mut RoleSet,
    states: &mut BootStates,
    role: &str,
) -> (r: Option<OrchestratorSkip>)
    requires
        old(attempted).wf(),
        old(states).wf(),
    ensures
        final(attempted).wf(),
        final(states).wf(),
        match readback {
            OffsetReadback::Failed => r == Some(OrchestratorSkip::ReadbackFailed)
                && final(attempted)@ == old(attempted)@.remove(role@) && final(states)@ == old(
                states,
            )@,
            OffsetReadback::Disagrees { current_rad } => r == Some(
                OrchestratorSkip::OffsetChanged { stored_rad: plan.stored_offset_rad, current_rad },
            ) && final(attempted)@ == old(attempted)@ && final(states)@ == old(states)@.insert(
                role@,
                BootState::OffsetChanged { stored_rad: plan.stored_offset_rad, current_rad },
            ),
            OffsetReadback::Agrees => r is None && final(attempted)@ == old(attempted)@
                && final(states)@ == old(states)@,
        },
{
    match readback {
        OffsetReadback::Failed => {
            let _ = attempted.remove(role);
            Some(OrchestratorSkip::ReadbackFailed)
        },
        OffsetReadback::Disagrees { current_rad } => {
            states.force_set_offset_changed(role, plan.stored_offset_rad, current_rad);
            Some(
                OrchestratorSkip::OffsetChanged {
                    stored_rad: plan.stored_offset_rad,
                    current_rad,
                },
            )
        },
        OffsetReadback::Agrees => None,
    }
}

/// A sample is stale when it is more than `max_age_ms` old at `now_ms`.
pub open spec fn is_stale(now_ms: i64, t_ms: i64, max_age_ms: i64) -> bool {
    now_ms - t_ms > max_age_ms
}

/// Third step, after looking up the cached telemetry: missing, stale or
/// out-of-band telemetry clears the role for a retry; otherwise the motor
/// enters `AutoHoming` and the homer starts from the sampled position.
pub fn after_telemetry(
    latest: Option<TelemetrySample>,
    now_ms: i64,
    max_age_ms: i64,
    plan: &HomePlan,
    attempted: &mut RoleSet,
    states: &mut BootStates,
    role: &str,
) -> (r: Result<RampPlan, OrchestratorSkip>)
    requires
        old(attempted).wf(),
        old(states).wf(),
    ensures
        final(attempted).wf(),
        final(states).wf(),
        match latest {
            None => r == Err::<RampPlan, _>(OrchestratorSkip::NoTelemetry) && final(attempted)@
                == old(attempted)@.remove(role@) && final(states)@ == old(states)@,
            Some(s) => if is_stale(now_ms, s.t_ms, max_age_ms) {
                r == Err::<RampPlan, _>(OrchestratorSkip::Stale) && final(attempted)@ == old(
                    attempted,
                )@.remove(role@) && final(states)@ == old(states)@
            } else if s.outside_band {
                r == Err::<RampPlan, _>(OrchestratorSkip::OutOfBand) && final(attempted)@ == old(
                    attempted,
                )@.remove(role@) && final(states)@ == old(states)@
            } else {
                r == Ok::<_, OrchestratorSkip>(
                    RampPlan { from_rad: s.mech_pos_rad, target_rad: plan.target_rad },
                ) && final(attempted)@ == old(attempted)@ && final(states)@ == old(states)@.insert(
                    role@,
                    BootState::AutoHoming {
                        from_rad: s.mech_pos_rad,
                        target_rad: plan.target_rad,
                        progress_rad: zero_progress(),
                    },
                )
            },
        },
{
    match latest {
        None => {
            let _ = attempted.remove(role);
            Err(OrchestratorSkip::NoTelemetry)
        },
        Some(s) => {
            let age: i128 = (now_ms as i128) - (s.t_ms as i128);
            if age > (max_age_ms as i128) {
                let _ = attempted.remove(role);
                Err(OrchestratorSkip::Stale)
            } else if s.outside_band {
                let _ = attempted.remove(role);
                Err(OrchestratorSkip::OutOfBand)
            } else {
                states.force_set_auto_homing(role, s.mech_pos_rad, plan.target_rad);
                Ok(RampPlan { from_rad: s.mech_pos_rad, target_rad: plan.target_rad })
            }
        },
    }
}

/// Last step: record how the homer ended. The role stays attempted either
/// way (after a failure, the operator's `POST /home` is the recovery path).
pub fn finish(outcome: RampOutcome, states: &mut BootStates, role: &str)
    requires
        old(states).wf(),
    ensures
        final(states).wf(),
        match outcome {
            RampOutcome::Reached => final(states)@ == old(states)@.insert(role@, BootState::Homed),
            RampOutcome::Failed { reason, last_pos_rad } => final(states)@ == old(states)@.insert(
                role@,
                BootState::HomeFailed { reason, last_pos_rad },
            ),
        },
{
    match outcome {
        RampOutcome::Reached => states.mark_homed(role),
        RampOutcome::Failed { reason, last_pos_rad } => states.force_set_home_failed(
            role,
            reason,
            last_pos_rad,
        ),
    }
}

/// Drop `role` from the attempted set so a later qualifying telemetry
/// transition can run the orchestrator again (used after an offset restore).
pub fn clear_orchestrator_attempted(attempted: &mut RoleSet, role: &str)
    requires
        old(attempted).wf(),
    ensures
        final(attempted).wf(),
        final(attempted)@ == old(attempted)@.remove(role@),
{
    let _ = attempted.remove(role);
}

/// Does a telemetry classification call for an orchestrator run?
pub open spec fn qualifies_spec(
    outcome: ClassifyOutcome,
    aux_seeded_first_row: bool,
    current: BootState,
) -> bool {
    let in_band_transition = match outcome {
        ClassifyOutcome::Changed { prev, new } => new is InBand && (prev is Unknown
            || prev is OutOfBand),
        ClassifyOutcome::Unchanged => false,
    };
    in_band_transition || (aux_seeded_first_row && current is InBand)
}

/// The orchestrator fires on `Unknown → InBand` and `OutOfBand → InBand`,
/// or when the first telemetry row is seeded while the motor is already
/// `InBand`.
pub fn orchestrator_qualifies(
    outcome: &ClassifyOutcome,
    aux_seeded_first_row: bool,
    current: &BootState,
) -> (b: bool)
    ensures
        b == qualifies_spec(*outcome, aux_seeded_first_row, *current),
{
    let in_band_transition = match outcome {
        ClassifyOutcome::Changed { prev, new } => matches!(new, BootState::InBand) && (matches!(
            prev,
            BootState::Unknown
        ) || matches!(prev, BootState::OutOfBand { .. })),
        ClassifyOutcome::Unchanged => false,
    };
    in_band_transition || (aux_seeded_first_row && matches!(current, BootState::InBand))
}

/// Once the orchestrator has begun for a role and left it marked, beginning
/// again without clearing the role is turned away and changes nothing.
pub proof fn law_orchestrator_runs_once(
    enabled: bool,
    attempted: Set<Seq<char>>,
    devs: Seq<Device>,
    role: Seq<char>,
)
    requires
        begin_spec(enabled, attempted, devs, role).1.contains(role),
    ensures
        ({
            let after = begin_spec(enabled, attempted, devs, role).1;
            begin_spec(enabled, after, devs, role) == (
                Err::<HomePlan, OrchestratorSkip>(
                    if enabled {
                        OrchestratorSkip::AlreadyAttempted
                    } else {
                        OrchestratorSkip::Disabled
                    },
                ),
                after,
            )
        }),
{
}

/// Clearing a role lets the orchestrator proceed for it again (when the switch is on).
pub proof fn law_clear_reopens_gate(attempted: Set<Seq<char>>, role: Seq<char>)
    ensures
        gate(true, attempted.remove(role), role) is Proceed,
{
}

/// The orchestrator only drives motors the inventory lists as commissioned
/// actuators; the plan carries that actuator's own offset and home target.
pub proof fn law_orchestrator_needs_commissioning(
    enabled: bool,
    attempted: Set<Seq<char>>,
    devs: Seq<Device>,
    role: Seq<char>,
)
    requires
        begin_spec(enabled, attempted, devs, role).0 is Ok,
    ensures
        enabled,
        !attempted.contains(role),
        exists|a: Actuator|
            first_with_role(devs, role) == Some(Device::Actuator(a)) && plan_for(a) == Some(
                begin_spec(enabled, attempted, devs, role).0->Ok_0,
            ),
{
    match first_with_role(devs, role) {
        Some(Device::Actuator(a)) => {
            assert(plan_for(a) == Some(begin_spec(enabled, attempted, devs, role).0->Ok_0));
        },
        _ => {},
    }
}

} // verus!
