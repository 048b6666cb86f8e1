//! Admission rules of the motor endpoints: which request is refused, with
//! which error code and HTTP status, before any CAN frame is sent or any
//! file is rewritten.
//!
//! Checks that read measured angles (is the cached position inside the
//! travel band? does the path to the target leave it?) are made by the
//! caller; their verdicts come in as plain values.
use vstd::prelude::*;

use crate::boot_state::{BootState, BootStates, state_in};
use crate::control_lock::{ensure_passes, holds, ControlGrant, ControlLock};
use crate::inventory::{
    canonical_role_error, dev_bus, dev_id, dev_role, first_with_role, role_bytes,
    validate_canonical_role, Actuator, CanonicalRoleError, Device, Inventory, TravelLimits,
};
use crate::rolemap::RoleSet;
use crate::text::{copy_string, str_eq};
use crate::types::{test_name_label, F32Bits, TestName};

verus! {

/// Why an endpoint refused a request.
#[derive(Debug)]
pub enum Refusal {
    /// Another session holds the control lock.
    LockHeld { holder: String },
    UnknownMotor,
    /// The inventory row has `present: false`.
    MotorAbsent,
    /// `safety.require_verified` is on and the motor is not verified.
    NotVerified,
    OutOfBand,
    /// No telemetry has classified the motor yet.
    NotReady,
    AutoRecoveryInProgress,
    NotHomed,
    OffsetChanged,
    AutoHomingInProgress,
    NoTelemetry,
    PathViolation,
    BadRequest,
    InvalidRole(CanonicalRoleError),
    /// The new role equals the current one.
    NoOp,
    RoleInUse,
    UnknownTest,
    /// A jog's projected position leaves the travel band.
    TravelLimitViolation,
    /// A jog step larger than `boot_max_step_rad` before homing.
    StepTooLarge,
    /// A non-finite predefined home angle.
    OutOfRange,
    /// The motor has no travel band to check a home angle against.
    NoTravelLimits,
    /// The predefined home angle lies outside the travel band.
    OutsideTravelBand,
    /// No telemetry row for the motor, or one older than
    /// `safety.max_feedback_age_ms`.
    StaleTelemetry,
    /// A re-zero was asked for without `confirm_advanced: true`.
    RequiresConfirmation,
}

/// HTTP status of a refusal.
pub open spec fn refusal_status(r: Refusal) -> u16 {
    match r {
        Refusal::LockHeld { .. } => 423,
        Refusal::UnknownMotor => 404,
        Refusal::NotVerified => 403,
        Refusal::BadRequest => 400,
        Refusal::InvalidRole(_) => 400,
        Refusal::NoOp => 400,
        Refusal::UnknownTest => 400,
        Refusal::OutOfRange => 400,
        Refusal::OutsideTravelBand => 400,
        Refusal::RequiresConfirmation => 400,
        _ => 409,
    }
}

/// Error code of a refusal, as sent in the `error` field.
pub open spec fn refusal_code(r: Refusal) -> Seq<char> {
    match r {
        Refusal::LockHeld { .. } => "lock_held"@,
        Refusal::UnknownMotor => "unknown_motor"@,
        Refusal::MotorAbsent => "motor_absent"@,
        Refusal::NotVerified => "not_verified"@,
        Refusal::OutOfBand => "out_of_band"@,
        Refusal::NotReady => "not_ready"@,
        Refusal::AutoRecoveryInProgress => "auto_recovery_in_progress"@,
        Refusal::NotHomed => "not_homed"@,
        Refusal::OffsetChanged => "offset_changed"@,
        Refusal::AutoHomingInProgress => "auto_homing_in_progress"@,
        Refusal::NoTelemetry => "no_telemetry"@,
        Refusal::PathViolation => "path_violation"@,
        Refusal::BadRequest => "bad_request"@,
        Refusal::InvalidRole(_) => "invalid_role"@,
        Refusal::NoOp => "no_op"@,
        Refusal::RoleInUse => "role_in_use"@,
        Refusal::UnknownTest => "unknown_test"@,
        Refusal::TravelLimitViolation => "travel_limit_violation"@,
        Refusal::StepTooLarge => "step_too_large"@,
        Refusal::OutOfRange => "out_of_range"@,
        Refusal::NoTravelLimits => "no_travel_limits"@,
        Refusal::OutsideTravelBand => "outside_travel_band"@,
        Refusal::StaleTelemetry => "stale_telemetry"@,
        Refusal::RequiresConfirmation => "requires_confirmation"@,
    }
}

impl Refusal {
    /// HTTP status to answer with.
    pub fn status(&self) -> (s: u16)
        ensures
            s == refusal_status(*self),
    {
        match self {
            Refusal::LockHeld { .. } => 423,
            Refusal::UnknownMotor => 404,
            Refusal::NotVerified => 403,
            Refusal::BadRequest => 400,
            Refusal::InvalidRole(_) => 400,
            Refusal::NoOp => 400,
            Refusal::UnknownTest => 400,
            Refusal::OutOfRange => 400,
            Refusal::OutsideTravelBand => 400,
            Refusal::RequiresConfirmation => 400,
            _ => 409,
        }
    }

    /// Machine-readable error code.
    pub fn code(&self) -> (c: &'static str)
        ensures
            c@ == refusal_code(*self),
    {
        match self {
            Refusal::LockHeld { .. } => "lock_held",
            Refusal::UnknownMotor => "unknown_motor",
            Refusal::MotorAbsent => "motor_absent",
            Refusal::NotVerified => "not_verified",
            Refusal::OutOfBand => "out_of_band",
            Refusal::NotReady => "not_ready",
            Refusal::AutoRecoveryInProgress => "auto_recovery_in_progress",
            Refusal::NotHomed => "not_homed",
            Refusal::OffsetChanged => "offset_changed",
            Refusal::AutoHomingInProgress => "auto_homing_in_progress",
            Refusal::NoTelemetry => "no_telemetry",
            Refusal::PathViolation => "path_violation",
            Refusal::BadRequest => "bad_request",
            Refusal::InvalidRole(_) => "invalid_role",
            Refusal::NoOp => "no_op",
            Refusal::RoleInUse => "role_in_use",
            Refusal::UnknownTest => "unknown_test",
            Refusal::TravelLimitViolation => "travel_limit_violation",
            Refusal::StepTooLarge => "step_too_large",
            Refusal::OutOfRange => "out_of_range",
            Refusal::NoTravelLimits => "no_travel_limits",
            Refusal::OutsideTravelBand => "outside_travel_band",
            Refusal::StaleTelemetry => "stale_telemetry",
            Refusal::RequiresConfirmation => "requires_confirmation",
        }
    }
}

/// The actuator an endpoint addressed as `role` refers to: the first
/// inventory row with that role, when it is an actuator.
pub open spec fn motor_for(devs: Seq<Device>, role: Seq<char>) -> Option<Actuator> {
    match first_with_role(devs, role) {
        Some(Device::Actuator(a)) => Some(a),
        _ => None,
    }
}

/// Single-operator gate: claims a free lock for a named session; refuses
/// when another session holds it. `Ok` tells whether the lock was already
/// held by the session, claimed just now, or left free (anonymous caller).
pub fn lock_gate(lock: &mut ControlLock, session_id: &str) -> (r: Result<ControlGrant, Refusal>)
    ensures
        match old(lock)@ {
            Some(_) => final(lock)@ == old(lock)@,
            None => if session_id@.len() == 0 {
                final(lock)@ is None
            } else {
                holds(final(lock)@, session_id@)
            },
        },
        r is Ok <==> ensure_passes(old(lock)@, session_id@),
        match r {
            Err(Refusal::LockHeld { holder }) => old(lock)@ matches Some((h, _)) && holder@ == h,
            Err(_) => false,
            Ok(g) => g == (match old(lock)@ {
                Some(_) => ControlGrant::AlreadyHeld,
                None => if session_id@.len() == 0 {
                    ControlGrant::Unclaimed
                } else {
                    ControlGrant::Claimed
                },
            }),
        },
{
    match lock.ensure_control(session_id) {
        Ok(g) => Ok(g),
        Err(holder) => Err(Refusal::LockHeld { holder }),
    }
}

/// Resolve `role` and refuse motors marked `present: false`.
pub fn require_present<'a>(inv: &'a Inventory, role: &str) -> (r: Result<&'a Actuator, Refusal>)
    ensures
        match motor_for(inv.devices@, role@) {
            None => r matches Err(Refusal::UnknownMotor),
            Some(a) => if a.common.present {
                r matches Ok(x) && *x == a
            } else {
                r matches Err(Refusal::MotorAbsent)
            },
        },
{
    match inv.actuator_by_role(role) {
        None => Err(Refusal::UnknownMotor),
        Some(a) => if a.common.present {
            Ok(a)
        } else {
            Err(Refusal::MotorAbsent)
        },
    }
}

/// Boot-state part of the enable gate: only a homed motor may be enabled.
pub open spec fn enable_boot_refusal(bs: BootState) -> Option<Refusal> {
    match bs {
        BootState::Homed => None,
        BootState::Unknown => Some(Refusal::NotReady),
        BootState::OutOfBand { .. } => Some(Refusal::OutOfBand),
        BootState::AutoRecovering { .. } => Some(Refusal::AutoRecoveryInProgress),
        BootState::InBand => Some(Refusal::NotHomed),
        BootState::OffsetChanged { .. } => Some(Refusal::OffsetChanged),
        BootState::AutoHoming { .. } => Some(Refusal::AutoHomingInProgress),
        BootState::HomeFailed { .. } => Some(Refusal::NotHomed),
    }
}

/// The enable gate, in order: motor known and present, verified (when
/// required), cached position inside the band, then homed.
pub open spec fn enable_refusal(
    m: Option<Actuator>,
    require_verified: bool,
    band_violation: bool,
    bs: BootState,
) -> Option<Refusal> {
    match m {
        None => Some(Refusal::UnknownMotor),
        Some(a) => if !a.common.present {
            Some(Refusal::MotorAbsent)
        } else if require_verified && !a.common.verified {
            Some(Refusal::NotVerified)
        } else if band_violation {
            Some(Refusal::OutOfBand)
        } else {
            enable_boot_refusal(bs)
        },
    }
}

pub open spec fn as_result(o: Option<Refusal>) -> Result<(), Refusal> {
    match o {
        Some(x) => Err(x),
        None => Ok(()),
    }
}

fn boot_refusal_for_enable(bs: &BootState) -> (r: Option<Refusal>)
    ensures
        r == enable_boot_refusal(*bs),
{
    match bs {
        BootState::Homed => None,
        BootState::Unknown => Some(Refusal::NotReady),
        BootState::OutOfBand { .. } => Some(Refusal::OutOfBand),
        BootState::AutoRecovering { .. } => Some(Refusal::AutoRecoveryInProgress),
        BootState::InBand => Some(Refusal::NotHomed),
        BootState::OffsetChanged { .. } => Some(Refusal::OffsetChanged),
        BootState::AutoHoming { .. } => Some(Refusal::AutoHomingInProgress),
        BootState::HomeFailed { .. } => Some(Refusal::NotHomed),
    }
}

/// Admission of `POST /motors/:role/enable`. `band_violation` is the
/// verdict of the travel-band check on the cached position (false when the
/// motor has no limits or no cached position).
pub fn check_enable(
    inv: &Inventory,
    states: &BootStates,
    role: &str,
    require_verified: bool,
    band_violation: bool,
) -> (r: Result<(), Refusal>)
    requires
        states.wf(),
    ensures
        r == as_result(
            enable_refusal(
                motor_for(inv.devices@, role@),
                require_verified,
                band_violation,
                state_in(states@, role@),
            ),
        ),
{
    let a = match require_present(inv, role) {
        Err(e) => return Err(e),
        Ok(a) => a,
    };
    if require_verified && !a.common.verified {
        return Err(Refusal::NotVerified);
    }
    if band_violation {
        return Err(Refusal::OutOfBand);
    }
    let bs = states.current(role);
    match boot_refusal_for_enable(&bs) {
        Some(e) => Err(e),
        None => Ok(()),
    }
}

/// Verdict of the path-aware band check from the current position to a
/// target.
#[derive(Debug, Clone, Copy, PartialEq, Eq, Structural)]
pub enum PathCheck {
    /// Target and path stay inside the band.
    Clear,
    /// The target lies outside the band.
    OutOfBand,
    /// The path from the current position to the target leaves the band.
    PathViolation,
}

/// Boot-state part of the home gate: homing is refused while unclassified,
/// out of band, being driven by a routine, or after an offset change; a
/// failed auto-home and re-homing are allowed.
pub open spec fn home_boot_refusal(bs: BootState) -> Option<Refusal> {
    match bs {
        BootState::Unknown => Some(Refusal::NotReady),
        BootState::OutOfBand { .. } => Some(Refusal::OutOfBand),
        BootState::AutoRecovering { .. } => Some(Refusal::AutoRecoveryInProgress),
        BootState::OffsetChanged { .. } => Some(Refusal::OffsetChanged),
        BootState::AutoHoming { .. } => Some(Refusal::AutoHomingInProgress),
        _ => None,
    }
}

/// The home gate after the control lock: finite target, motor present,
/// boot state, cached telemetry, then the path check.
pub open spec fn home_refusal(
    target_finite: bool,
    m: Option<Actuator>,
    bs: BootState,
    path: Option<PathCheck>,
) -> Option<Refusal> {
    if !target_finite {
        Some(Refusal::BadRequest)
    } else {
        match m {
            None => Some(Refusal::UnknownMotor),
            Some(a) => if !a.common.present {
                Some(Refusal::MotorAbsent)
            } else {
                match home_boot_refusal(bs) {
                    Some(x) => Some(x),
                    None => match path {
                        None => Some(Refusal::NoTelemetry),
                        Some(PathCheck::OutOfBand) => Some(Refusal::OutOfBand),
                        Some(PathCheck::PathViolation) => Some(Refusal::PathViolation),
                        Some(PathCheck::Clear) => None,
                    },
                }
            },
        }
    }
}

/// Admission of `POST /motors/:role/home` (after the control lock).
/// `path` is `None` when no telemetry is cached for the motor.
pub fn check_home<'a>(
    inv: &'a Inventory,
    states: &BootStates,
    role: &str,
    target_finite: bool,
    path: Option<PathCheck>,
) -> (r: Result<&'a Actuator, Refusal>)
    requires
        states.wf(),
    ensures
        match home_refusal(
            target_finite,
            motor_for(inv.devices@, role@),
            state_in(states@, role@),
            path,
        ) {
            Some(x) => r == Err::<&Actuator, Refusal>(x),
            None => r matches Ok(a) && motor_for(inv.devices@, role@) == Some(*a),
        },
{
    if !target_finite {
        return Err(Refusal::BadRequest);
    }
    let a = match require_present(inv, role) {
        Err(e) => return Err(e),
        Ok(a) => a,
    };
    let bs = states.current(role);
    match bs {
        BootState::Unknown => return Err(Refusal::NotReady),
        BootState::OutOfBand { .. } => return Err(Refusal::OutOfBand),
        BootState::AutoRecovering { .. } => return Err(Refusal::AutoRecoveryInProgress),
        BootState::OffsetChanged { .. } => return Err(Refusal::OffsetChanged),
        BootState::AutoHoming { .. } => return Err(Refusal::AutoHomingInProgress),
        _ => {},
    }
    match path {
        None => Err(Refusal::NoTelemetry),
        Some(PathCheck::OutOfBand) => Err(Refusal::OutOfBand),
        Some(PathCheck::PathViolation) => Err(Refusal::PathViolation),
        Some(PathCheck::Clear) => Ok(a),
    }
}

/// Longest jog a single request may arm, in ms.
pub const MAX_TTL_MS: u64 = 1000;

/// A jog's watchdog deadline: the requested ttl clamped to `50..=1000` ms.
pub fn jog_ttl_ms(ttl_ms: u64) -> (r: u64)
    ensures
        r == if ttl_ms < 50 {
            50
        } else if ttl_ms > 1000 {
            1000
        } else {
            ttl_ms
        },
{
    if ttl_ms < 50 {
        50
    } else if ttl_ms > MAX_TTL_MS {
        MAX_TTL_MS
    } else {
        ttl_ms
    }
}

/// Is there a telemetry row no older than `max_age_ms` at `now_ms`?
pub open spec fn telemetry_fresh(latest_t_ms: Option<i64>, now_ms: i64, max_age_ms: u64) -> bool {
    match latest_t_ms {
        Some(t) => now_ms - t <= max_age_ms,
        None => false,
    }
}

/// The jog gate after the control lock, up to the band projection: motor
/// present, verified (when required), finite velocity, a boot state that
/// is neither auto-recovering, unclassified nor out of band, and fresh
/// telemetry to bound the step with.
pub open spec fn jog_refusal(
    m: Option<Actuator>,
    require_verified: bool,
    vel_finite: bool,
    bs: BootState,
    fresh: bool,
) -> Option<Refusal> {
    match m {
        None => Some(Refusal::UnknownMotor),
        Some(a) => if !a.common.present {
            Some(Refusal::MotorAbsent)
        } else if require_verified && !a.common.verified {
            Some(Refusal::NotVerified)
        } else if !vel_finite {
            Some(Refusal::BadRequest)
        } else if bs is AutoRecovering {
            Some(Refusal::AutoRecoveryInProgress)
        } else if bs is Unknown {
            Some(Refusal::NotReady)
        } else if bs is OutOfBand {
            Some(Refusal::OutOfBand)
        } else if !fresh {
            Some(Refusal::StaleTelemetry)
        } else {
            None
        },
    }
}

/// Admission of `POST /motors/:role/jog` (see [`jog_refusal`]).
/// `latest_t_ms` is the timestamp of the motor's cached telemetry row.
pub fn check_jog<'a>(
    inv: &'a Inventory,
    states: &BootStates,
    role: &str,
    require_verified: bool,
    vel_finite: bool,
    latest_t_ms: Option<i64>,
    now_ms: i64,
    max_age_ms: u64,
) -> (r: Result<&'a Actuator, Refusal>)
    requires
        states.wf(),
    ensures
        match jog_refusal(
            motor_for(inv.devices@, role@),
            require_verified,
            vel_finite,
            state_in(states@, role@),
            telemetry_fresh(latest_t_ms, now_ms, max_age_ms),
        ) {
            Some(x) => r == Err::<&Actuator, Refusal>(x),
            None => r matches Ok(a) && motor_for(inv.devices@, role@) == Some(*a),
        },
{
    let a = match require_present(inv, role) {
        Err(e) => return Err(e),
        Ok(a) => a,
    };
    if require_verified && !a.common.verified {
        return Err(Refusal::NotVerified);
    }
    if !vel_finite {
        return Err(Refusal::BadRequest);
    }
    let bs = states.current(role);
    if bs.is_auto_recovering() {
        return Err(Refusal::AutoRecoveryInProgress);
    }
    match bs {
        BootState::Unknown => return Err(Refusal::NotReady),
        BootState::OutOfBand { .. } => return Err(Refusal::OutOfBand),
        _ => {},
    }
    let fresh = match latest_t_ms {
        Some(t) => (now_ms as i128) - (t as i128) <= (max_age_ms as i128),
        None => false,
    };
    if !fresh {
        return Err(Refusal::StaleTelemetry);
    }
    Ok(a)
}

/// Admission of `POST /motors/:role/set_zero`: the request must opt in
/// with `confirm_advanced` (re-zeroing is an advanced step; `/commission`
/// is the normal path), and the motor must be known and present.
pub fn check_set_zero<'a>(inv: &'a Inventory, role: &str, confirm_advanced: bool) -> (r: Result<&'a Actuator, Refusal>)
    ensures
        !confirm_advanced ==> r == Err::<&Actuator, Refusal>(Refusal::RequiresConfirmation),
        confirm_advanced ==> match motor_for(inv.devices@, role@) {
            None => r == Err::<&Actuator, Refusal>(Refusal::UnknownMotor),
            Some(a) => if !a.common.present {
                r == Err::<&Actuator, Refusal>(Refusal::MotorAbsent)
            } else {
                r matches Ok(b) && *b == a
            },
        },
{
    if !confirm_advanced {
        return Err(Refusal::RequiresConfirmation);
    }
    require_present(inv, role)
}

/// Is the actuator unassigned (neither limb nor joint kind on file)?
pub open spec fn unassigned(a: Actuator) -> bool {
    a.common.limb is None && a.common.joint_kind is None
}

/// The rename / assign gate after the control lock: canonical new role,
/// an actual change, a known motor and a free new role.
pub open spec fn rename_refusal(
    devs: Seq<Device>,
    role: Seq<char>,
    new_role: Seq<char>,
) -> Option<Refusal> {
    match canonical_role_error(role_bytes(new_role)) {
        Some(e) => Some(Refusal::InvalidRole(e)),
        None => if new_role == role {
            Some(Refusal::NoOp)
        } else {
            match motor_for(devs, role) {
                None => Some(Refusal::UnknownMotor),
                Some(a) => if first_with_role(devs, new_role) is Some {
                    Some(Refusal::RoleInUse)
                } else {
                    None
                },
            }
        },
    }
}

/// An admitted rename of an enabled motor is done with torque briefly
/// dropped: stop on the bus, rename, re-enable under the new role. A
/// first-time assignment of an unassigned motor is a pure relabelling and
/// skips the cycle.
pub open spec fn rename_stop_cycle(
    devs: Seq<Device>,
    enabled: Set<Seq<char>>,
    role: Seq<char>,
    assignment: bool,
) -> bool {
    match motor_for(devs, role) {
        Some(a) => !(assignment && unassigned(a)) && enabled.contains(role),
        None => false,
    }
}

/// Admission of `POST /motors/:role/rename` and `.../assign` (after the
/// control lock). `assignment` tells an assign from a rename. `Ok(cycle)`:
/// whether the motor is to be stopped before and re-enabled after.
pub fn check_rename(
    inv: &Inventory,
    enabled: &RoleSet,
    role: &str,
    new_role: &str,
    assignment: bool,
) -> (r: Result<bool, Refusal>)
    requires
        enabled.wf(),
    ensures
        match rename_refusal(inv.devices@, role@, new_role@) {
            Some(e) => r == Err::<bool, Refusal>(e),
            None => r == Ok::<bool, Refusal>(rename_stop_cycle(inv.devices@, enabled@, role@, assignment)),
        },
{
    match validate_canonical_role(new_role) {
        Err(e) => return Err(Refusal::InvalidRole(e)),
        Ok(()) => {},
    }
    if str_eq(new_role, role) {
        return Err(Refusal::NoOp);
    }
    let a = match inv.actuator_by_role(role) {
        None => return Err(Refusal::UnknownMotor),
        Some(a) => a,
    };
    if inv.by_role(new_role).is_some() {
        return Err(Refusal::RoleInUse);
    }
    let first_assign = assignment && a.common.limb.is_none() && a.common.joint_kind.is_none();
    Ok(!first_assign && enabled.contains(role))
}

pub open spec fn opt_str_view(o: Option<String>) -> Option<Seq<char>> {
    match o {
        Some(s) => Some(s@),
        None => None,
    }
}

/// `b` is `a` renamed to `new_role`, with limb and joint kind set when an
/// assignment is given; every other field is kept.
pub open spec fn renamed_as(
    b: Actuator,
    a: Actuator,
    new_role: Seq<char>,
    assignment: Option<(Seq<char>, Seq<char>)>,
) -> bool {
    &&& b.family == a.family
    &&& b.common.role@ == new_role
    &&& b.common.can_bus == a.common.can_bus
    &&& b.common.can_id == a.common.can_id
    &&& b.common.present == a.common.present
    &&& b.common.verified == a.common.verified
    &&& b.common.commissioned_at == a.common.commissioned_at
    &&& b.common.firmware_version == a.common.firmware_version
    &&& b.common.travel_limits == a.common.travel_limits
    &&& b.common.commissioned_zero_offset == a.common.commissioned_zero_offset
    &&& b.common.predefined_home_rad == a.common.predefined_home_rad
    &&& b.common.notes_yaml == a.common.notes_yaml
    &&& match assignment {
        Some((l, j)) => opt_str_view(b.common.limb) == Some(l) && opt_str_view(
            b.common.joint_kind,
        ) == Some(j),
        None => b.common.limb == a.common.limb && b.common.joint_kind == a.common.joint_kind,
    }
}

pub open spec fn assignment_view(o: Option<(String, String)>) -> Option<(Seq<char>, Seq<char>)> {
    match o {
        Some((l, j)) => Some((l@, j@)),
        None => None,
    }
}

/// Rewrite the motor `role` in the inventory: new role, and limb / joint
/// kind when assigning. Returns `false` (inventory untouched) when the
/// first row with that role is not an actuator or there is none.
pub fn apply_rename(
    inv: &mut Inventory,
    role: &str,
    new_role: &str,
    assignment: Option<(String, String)>,
) -> (found: bool)
    ensures
        final(inv).schema_version == old(inv).schema_version,
        found == motor_for(old(inv).devices@, role@) is Some,
        !found ==> final(inv).devices@ == old(inv).devices@,
        found ==> exists|i: int|
            0 <= i < old(inv).devices@.len() && dev_role(old(inv).devices@[i]) == role@ && (forall|
                j: int,
            | 0 <= j < i ==> dev_role(#[trigger] old(inv).devices@[j]) != role@) && (
            old(inv).devices@[i] matches Device::Actuator(a) && final(inv).devices@[i] matches Device::Actuator(
                b,
            ) && renamed_as(b, a, new_role@, assignment_view(assignment)))
                && final(inv).devices@.len() == old(inv).devices@.len() && forall|j: int|
                0 <= j < old(inv).devices@.len() && j != i ==> #[trigger] final(inv).devices@[j]
                    == old(inv).devices@[j],
{
    let ghost devs0 = inv.devices@;
    let mut i: usize = 0;
    assert(inv.devices@.skip(0) =~= inv.devices@);
    while i < inv.devices.len() && !str_eq(inv.devices[i].role(), role)
        invariant
            inv.devices@ == devs0,
            i <= devs0.len(),
            forall|j: int| 0 <= j < i ==> dev_role(#[trigger] devs0[j]) != role@,
            first_with_role(devs0, role@) == first_with_role(devs0.skip(i as int), role@),
        decreases devs0.len() - i,
    {
        proof {
            crate::inventory::lemma_first_with_role_step(devs0, role@, i as int);
        }
        i = i + 1;
    }
    if i >= inv.devices.len() {
        proof {
            assert(devs0.skip(i as int).len() == 0);
        }
        return false;
    }
    proof {
        crate::inventory::lemma_first_with_role_step(devs0, role@, i as int);
    }
    if !matches!(inv.devices[i], Device::Actuator(_)) {
        return false;
    }
    let d = inv.devices.remove(i);
    match d {
        Device::Actuator(mut a) => {
            let ghost a0 = a;
            a.common.role = copy_string(new_role);
            match assignment {
                Some((l, j)) => {
                    a.common.limb = Some(l);
                    a.common.joint_kind = Some(j);
                },
                None => {},
            }
            assert(renamed_as(a, a0, new_role@, assignment_view(assignment)));
            inv.devices.insert(i, Device::Actuator(a));
            assert(inv.devices@ =~= devs0.update(i as int, Device::Actuator(a)));
            true
        },
        _ => {
            inv.devices.insert(i, d);
            false
        },
    }
}

/// Wire name → bench routine.
pub open spec fn test_name_of(s: Seq<char>) -> Option<TestName> {
    if s == "read"@ {
        Some(TestName::Read)
    } else if s == "set_zero"@ {
        Some(TestName::SetZero)
    } else if s == "smoke"@ {
        Some(TestName::Smoke)
    } else if s == "jog"@ {
        Some(TestName::Jog)
    } else if s == "jog_overlimit"@ {
        Some(TestName::JogOverlimit)
    } else {
        None
    }
}

/// Bench routine named `s`, if any.
pub fn parse_name(s: &str) -> (r: Option<TestName>)
    ensures
        r == test_name_of(s@),
{
    if str_eq(s, "read") {
        Some(TestName::Read)
    } else if str_eq(s, "set_zero") {
        Some(TestName::SetZero)
    } else if str_eq(s, "smoke") {
        Some(TestName::Smoke)
    } else if str_eq(s, "jog") {
        Some(TestName::Jog)
    } else if str_eq(s, "jog_overlimit") {
        Some(TestName::JogOverlimit)
    } else {
        None
    }
}

/// Every routine's wire name parses back to the routine.
pub proof fn law_test_name_round_trip(t: TestName)
    ensures
        test_name_of(test_name_label(t)) == Some(t),
{
    reveal_strlit("read");
    reveal_strlit("set_zero");
    reveal_strlit("smoke");
    reveal_strlit("jog");
    reveal_strlit("jog_overlimit");
    assert("read"@.len() == 4 && "set_zero"@.len() == 8 && "smoke"@.len() == 5);
    assert("jog"@.len() == 3 && "jog_overlimit"@.len() == 13);
}

/// The run-test gate: the session may drive, the routine exists, the
/// motor is known and present.
pub open spec fn test_refusal(
    lock: crate::control_lock::LockView,
    session: Seq<char>,
    name: Seq<char>,
    m: Option<Actuator>,
) -> Option<Refusal> {
    if !ensure_passes(lock, session) {
        Some(Refusal::LockHeld { holder: arbitrary() })
    } else if test_name_of(name) is None {
        Some(Refusal::UnknownTest)
    } else {
        match m {
            None => Some(Refusal::UnknownMotor),
            Some(a) => if a.common.present {
                None
            } else {
                Some(Refusal::MotorAbsent)
            },
        }
    }
}

/// Admission of `POST /motors/:role/tests/:name`.
pub fn check_test<'a>(
    lock: &ControlLock,
    session_id: &str,
    inv: &'a Inventory,
    role: &str,
    name: &str,
) -> (r: Result<(TestName, &'a Actuator), Refusal>)
    ensures
        match test_refusal(lock@, session_id@, name@, motor_for(inv.devices@, role@)) {
            Some(Refusal::LockHeld { .. }) => r matches Err(Refusal::LockHeld { holder }) && (
            lock@ matches Some((h, _)) && holder@ == h),
            Some(x) => r == Err::<(TestName, &Actuator), Refusal>(x),
            None => r matches Ok((t, a)) && test_name_of(name@) == Some(t) && motor_for(
                inv.devices@,
                role@,
            ) == Some(*a),
        },
{
    if !lock.has_control(session_id) {
        let holder = match lock.holder_id() {
            Some(h) => h,
            None => String::new(),
        };
        return Err(Refusal::LockHeld { holder });
    }
    let t = match parse_name(name) {
        None => return Err(Refusal::UnknownTest),
        Some(t) => t,
    };
    match require_present(inv, role) {
        Err(e) => Err(e),
        Ok(a) => Ok((t, a)),
    }
}

/// Role of the device at `(bus, can_id)`, if the inventory has one.
pub fn role_for_can_id(inv: &Inventory, bus: &str, can_id: u8) -> (r: Option<String>)
    ensures
        match r {
            Some(s) => exists|i: int|
                0 <= i < inv.devices@.len() && dev_bus(inv.devices@[i]) == bus@ && dev_id(
                    inv.devices@[i],
                ) == can_id && s@ == dev_role(inv.devices@[i]) && forall|j: int|
                    0 <= j < i ==> !(dev_bus(#[trigger] inv.devices@[j]) == bus@ && dev_id(
                        inv.devices@[j],
                    ) == can_id),
            None => forall|i: int|
                0 <= i < inv.devices@.len() ==> !(dev_bus(#[trigger] inv.devices@[i]) == bus@
                    && dev_id(inv.devices@[i]) == can_id),
        },
{
    match inv.by_can_id(bus, can_id) {
        Some(d) => Some(copy_string(d.role())),
        None => None,
    }
}

/// Admission of `PUT /motors/:role/verified`: the session may drive and
/// some inventory row carries the role.
pub fn check_set_verified(lock: &ControlLock, session_id: &str, inv: &Inventory, role: &str) -> (r:
    Result<(), Refusal>)
    ensures
        !ensure_passes(lock@, session_id@) ==> (r matches Err(Refusal::LockHeld { holder }) && (
        lock@ matches Some((h, _)) && holder@ == h)),
        ensure_passes(lock@, session_id@) ==> (r is Ok <==> first_with_role(inv.devices@, role@) is Some),
        ensure_passes(lock@, session_id@) && r is Err ==> r matches Err(Refusal::UnknownMotor),
{
    if !lock.has_control(session_id) {
        let holder = match lock.holder_id() {
            Some(h) => h,
            None => String::new(),
        };
        return Err(Refusal::LockHeld { holder });
    }
    match inv.by_role(role) {
        Some(_) => Ok(()),
        None => Err(Refusal::UnknownMotor),
    }
}

/// Set the `verified` flag of the motor `role`. Returns `false` (inventory
/// untouched) when the first row with that role is not an actuator.
pub fn apply_verified(inv: &mut Inventory, role: &str, verified: bool) -> (found: bool)
    ensures
        final(inv).schema_version == old(inv).schema_version,
        found == motor_for(old(inv).devices@, role@) is Some,
        !found ==> final(inv).devices@ == old(inv).devices@,
        found ==> exists|i: int|
            0 <= i < old(inv).devices@.len() && dev_role(old(inv).devices@[i]) == role@ && (forall|
                j: int,
            | 0 <= j < i ==> dev_role(#[trigger] old(inv).devices@[j]) != role@) && (
            old(inv).devices@[i] matches Device::Actuator(a) && final(inv).devices@[i]
                == Device::Actuator(
                Actuator {
                    common: crate::inventory::ActuatorCommon { verified, ..a.common },
                    ..a
                },
            )) && final(inv).devices@.len() == old(inv).devices@.len() && forall|j: int|
                0 <= j < old(inv).devices@.len() && j != i ==> #[trigger] final(inv).devices@[j]
                    == old(inv).devices@[j],
{
    let ghost devs0 = inv.devices@;
    let mut i: usize = 0;
    assert(inv.devices@.skip(0) =~= inv.devices@);
    while i < inv.devices.len() && !str_eq(inv.devices[i].role(), role)
        invariant
            inv.devices@ == devs0,
            i <= devs0.len(),
            forall|j: int| 0 <= j < i ==> dev_role(#[trigger] devs0[j]) != role@,
            first_with_role(devs0, role@) == first_with_role(devs0.skip(i as int), role@),
        decreases devs0.len() - i,
    {
        proof {
            crate::inventory::lemma_first_with_role_step(devs0, role@, i as int);
        }
        i = i + 1;
    }
    if i >= inv.devices.len() {
        proof {
            assert(devs0.skip(i as int).len() == 0);
        }
        return false;
    }
    proof {
        crate::inventory::lemma_first_with_role_step(devs0, role@, i as int);
    }
    if !matches!(inv.devices[i], Device::Actuator(_)) {
        return false;
    }
    let d = inv.devices.remove(i);
    match d {
        Device::Actuator(mut a) => {
            a.common.verified = verified;
            inv.devices.insert(i, Device::Actuator(a));
            assert(inv.devices@ =~= devs0.update(i as int, Device::Actuator(a)));
            true
        },
        _ => {
            inv.devices.insert(i, d);
            false
        },
    }
}

/// Why `POST /api/home_all` refuses a motor before any motion: only
/// `InBand` and `Homed` motors may take part.
pub open spec fn home_all_offense(bs: BootState) -> Option<Seq<char>> {
    match bs {
        BootState::InBand => None,
        BootState::Homed => None,
        BootState::Unknown => Some("not_ready"@),
        BootState::OutOfBand { .. } => Some("out_of_band"@),
        BootState::AutoRecovering { .. } => Some("auto_recovery_in_progress"@),
        BootState::OffsetChanged { .. } => Some("offset_changed"@),
        BootState::AutoHoming { .. } => Some("auto_homing_in_progress"@),
        BootState::HomeFailed { .. } => Some("home_failed"@),
    }
}

/// Every offending motor among `roles`, in order, with its reason.
pub open spec fn home_all_offenders(m: Map<Seq<char>, BootState>, roles: Seq<Seq<char>>) -> Seq<
    (Seq<char>, Seq<char>),
>
    decreases roles.len(),
{
    if roles.len() == 0 {
        Seq::empty()
    } else {
        let rest = home_all_offenders(m, roles.drop_last());
        match home_all_offense(state_in(m, roles.last())) {
            Some(why) => rest.push((roles.last(), why)),
            None => rest,
        }
    }
}

fn offense_of(bs: &BootState) -> (r: Option<&'static str>)
    ensures
        match r {
            Some(s) => home_all_offense(*bs) == Some(s@),
            None => home_all_offense(*bs) is None,
        },
{
    match bs {
        BootState::InBand => None,
        BootState::Homed => None,
        BootState::Unknown => Some("not_ready"),
        BootState::OutOfBand { .. } => Some("out_of_band"),
        BootState::AutoRecovering { .. } => Some("auto_recovery_in_progress"),
        BootState::OffsetChanged { .. } => Some("offset_changed"),
        BootState::AutoHoming { .. } => Some("auto_homing_in_progress"),
        BootState::HomeFailed { .. } => Some("home_failed"),
    }
}

pub open spec fn offender_view(o: (String, &'static str)) -> (Seq<char>, Seq<char>) {
    (o.0@, o.1@)
}

pub open spec fn role_views(v: Seq<String>) -> Seq<Seq<char>> {
    v.map_values(|s: String| s@)
}

/// Pre-flight of `POST /api/home_all` over the motors it would home: the
/// request is refused (`preflight_failed`) when this list is non-empty.
pub fn home_all_preflight(states: &BootStates, roles: &Vec<String>) -> (r: Vec<(String, &'static str)>)
    requires
        states.wf(),
    ensures
        r@.map_values(|o: (String, &'static str)| offender_view(o)) == home_all_offenders(
            states@,
            role_views(roles@),
        ),
{
    let mut out: Vec<(String, &'static str)> = Vec::new();
    let mut i: usize = 0;
    while i < roles.len()
        invariant
            i <= roles@.len(),
            states.wf(),
            out@.map_values(|o: (String, &'static str)| offender_view(o)) == home_all_offenders(
                states@,
                role_views(roles@.take(i as int)),
            ),
        decreases roles@.len() - i,
    {
        let ghost before = out@;
        assert(role_views(roles@.take(i + 1)).drop_last() =~= role_views(roles@.take(i as int)));
        assert(role_views(roles@.take(i + 1)).last() == roles@[i as int]@);
        let bs = states.current(roles[i].as_str());
        match offense_of(&bs) {
            Some(why) => {
                out.push((copy_string(roles[i].as_str()), why));
                assert(out@.map_values(|o: (String, &'static str)| offender_view(o)) =~= before.map_values(
                    |o: (String, &'static str)| offender_view(o),
                ).push((roles@[i as int]@, why@)));
            },
            None => {},
        }
        i = i + 1;
    }
    assert(roles@.take(roles@.len() as int) =~= roles@);
    out
}

/// The predefined-home gate after the control lock: a finite angle, a
/// known motor with a travel band, and the angle inside that band (the
/// caller's verdict on the decoded floats).
pub open spec fn predefined_home_refusal(m: Option<Actuator>, finite: bool, within_band: bool) -> Option<Refusal> {
    if !finite {
        Some(Refusal::OutOfRange)
    } else {
        match m {
            None => Some(Refusal::UnknownMotor),
            Some(a) => if a.common.travel_limits is None {
                Some(Refusal::NoTravelLimits)
            } else if !within_band {
                Some(Refusal::OutsideTravelBand)
            } else {
                None
            },
        }
    }
}

/// Admission of `PUT /motors/:role/predefined_home`.
pub fn check_predefined_home(inv: &Inventory, role: &str, finite: bool, within_band: bool) -> (r: Result<(), Refusal>)
    ensures
        r == as_result(predefined_home_refusal(motor_for(inv.devices@, role@), finite, within_band)),
{
    if !finite {
        return Err(Refusal::OutOfRange);
    }
    match inv.actuator_by_role(role) {
        None => Err(Refusal::UnknownMotor),
        Some(a) => if a.common.travel_limits.is_none() {
            Err(Refusal::NoTravelLimits)
        } else if !within_band {
            Err(Refusal::OutsideTravelBand)
        } else {
            Ok(())
        },
    }
}

/// Record the predefined home angle of the motor `role`. Returns `false`
/// (inventory untouched) when the first row with that role is not an
/// actuator.
pub fn apply_predefined_home(inv: &mut Inventory, role: &str, home_rad: F32Bits) -> (found: bool)
    ensures
        final(inv).schema_version == old(inv).schema_version,
        found == motor_for(old(inv).devices@, role@) is Some,
        !found ==> final(inv).devices@ == old(inv).devices@,
        found ==> exists|i: int|
            0 <= i < old(inv).devices@.len() && dev_role(old(inv).devices@[i]) == role@ && (forall|
                j: int,
            | 0 <= j < i ==> dev_role(#[trigger] old(inv).devices@[j]) != role@) && (
            old(inv).devices@[i] matches Device::Actuator(a) && final(inv).devices@[i]
                == Device::Actuator(
                Actuator {
                    common: crate::inventory::ActuatorCommon { predefined_home_rad: Some(home_rad), ..a.common },
                    ..a
                },
            )) && final(inv).devices@.len() == old(inv).devices@.len() && forall|j: int|
                0 <= j < old(inv).devices@.len() && j != i ==> #[trigger] final(inv).devices@[j]
                    == old(inv).devices@[j],
{
    let ghost devs0 = inv.devices@;
    let mut i: usize = 0;
    assert(inv.devices@.skip(0) =~= inv.devices@);
    while i < inv.devices.len() && !str_eq(inv.devices[i].role(), role)
        invariant
            inv.devices@ == devs0,
            i <= devs0.len(),
            forall|j: int| 0 <= j < i ==> dev_role(#[trigger] devs0[j]) != role@,
            first_with_role(devs0, role@) == first_with_role(devs0.skip(i as int), role@),
        decreases devs0.len() - i,
    {
        proof {
            crate::inventory::lemma_first_with_role_step(devs0, role@, i as int);
        }
        i = i + 1;
    }
    if i >= inv.devices.len() {
        proof {
            assert(devs0.skip(i as int).len() == 0);
        }
        return false;
    }
    proof {
        crate::inventory::lemma_first_with_role_step(devs0, role@, i as int);
    }
    if !matches!(inv.devices[i], Device::Actuator(_)) {
        return false;
    }
    let d = inv.devices.remove(i);
    match d {
        Device::Actuator(mut a) => {
            a.common.predefined_home_rad = Some(home_rad);
            inv.devices.insert(i, Device::Actuator(a));
            assert(inv.devices@ =~= devs0.update(i as int, Device::Actuator(a)));
            true
        },
        _ => {
            inv.devices.insert(i, d);
            false
        },
    }
}

/// The travel-band gate after the control lock: a known motor and a band
/// the caller found valid (finite, ordered, inside the hardware rail).
pub open spec fn travel_limits_refusal(m: Option<Actuator>, band_ok: bool) -> Option<Refusal> {
    match m {
        None => Some(Refusal::UnknownMotor),
        Some(_) => if !band_ok {
            Some(Refusal::OutOfRange)
        } else {
            None
        },
    }
}

/// Admission of `PUT /motors/:role/travel_limits`.
pub fn check_travel_limits(inv: &Inventory, role: &str, band_ok: bool) -> (r: Result<(), Refusal>)
    ensures
        r == as_result(travel_limits_refusal(motor_for(inv.devices@, role@), band_ok)),
{
    match inv.actuator_by_role(role) {
        None => Err(Refusal::UnknownMotor),
        Some(_) => if !band_ok {
            Err(Refusal::OutOfRange)
        } else {
            Ok(())
        },
    }
}

/// Record a new travel band for the motor `role`. Returns `false`
/// (inventory untouched) when the first row with that role is not an
/// actuator.
pub fn apply_travel_limits(inv: &mut Inventory, role: &str, limits: TravelLimits) -> (found: bool)
    ensures
        final(inv).schema_version == old(inv).schema_version,
        found == motor_for(old(inv).devices@, role@) is Some,
        !found ==> final(inv).devices@ == old(inv).devices@,
        found ==> exists|i: int|
            0 <= i < old(inv).devices@.len() && dev_role(old(inv).devices@[i]) == role@ && (forall|
                j: int,
            | 0 <= j < i ==> dev_role(#[trigger] old(inv).devices@[j]) != role@) && (
            old(inv).devices@[i] matches Device::Actuator(a) && final(inv).devices@[i]
                == Device::Actuator(
                Actuator {
                    common: crate::inventory::ActuatorCommon { travel_limits: Some(limits), ..a.common },
                    ..a
                },
            )) && final(inv).devices@.len() == old(inv).devices@.len() && forall|j: int|
                0 <= j < old(inv).devices@.len() && j != i ==> #[trigger] final(inv).devices@[j]
                    == old(inv).devices@[j],
{
    let ghost devs0 = inv.devices@;
    let mut i: usize = 0;
    assert(inv.devices@.skip(0) =~= inv.devices@);
    while i < inv.devices.len() && !str_eq(inv.devices[i].role(), role)
        invariant
            inv.devices@ == devs0,
            i <= devs0.len(),
            forall|j: int| 0 <= j < i ==> dev_role(#[trigger] devs0[j]) != role@,
            first_with_role(devs0, role@) == first_with_role(devs0.skip(i as int), role@),
        decreases devs0.len() - i,
    {
        proof {
            crate::inventory::lemma_first_with_role_step(devs0, role@, i as int);
        }
        i = i + 1;
    }
    if i >= inv.devices.len() {
        proof {
            assert(devs0.skip(i as int).len() == 0);
        }
        return false;
    }
    proof {
        crate::inventory::lemma_first_with_role_step(devs0, role@, i as int);
    }
    if !matches!(inv.devices[i], Device::Actuator(_)) {
        return false;
    }
    let d = inv.devices.remove(i);
    match d {
        Device::Actuator(mut a) => {
            a.common.travel_limits = Some(limits);
            inv.devices.insert(i, Device::Actuator(a));
            assert(inv.devices@ =~= devs0.update(i as int, Device::Actuator(a)));
            true
        },
        _ => {
            inv.devices.insert(i, d);
            false
        },
    }
}

/// Enable is admitted only for a present (and, when required, verified)
/// motor that is homed and not reported outside its band; a band
/// violation refuses whatever the boot state says.
pub proof fn law_enable_admits_only_homed(
    m: Option<Actuator>,
    require_verified: bool,
    band_violation: bool,
    bs: BootState,
)
    ensures
        enable_refusal(m, require_verified, band_violation, bs) is None ==> (m matches Some(a)
            && a.common.present && (require_verified ==> a.common.verified)) && !band_violation
            && bs is Homed,
        band_violation ==> enable_refusal(m, require_verified, band_violation, bs) is Some,
{
}

/// Homing is never admitted while the motor is unclassified, out of band,
/// driven by auto-recovery or the boot orchestrator, or after an offset
/// change, nor without telemetry or with a path leaving the band.
pub proof fn law_home_refused_in_unsafe_states(
    target_finite: bool,
    m: Option<Actuator>,
    bs: BootState,
    path: Option<PathCheck>,
)
    requires
        home_refusal(target_finite, m, bs, path) is None,
    ensures
        target_finite,
        !(bs is Unknown || bs is OutOfBand || bs is AutoRecovering || bs is OffsetChanged
            || bs is AutoHoming),
        path == Some(PathCheck::Clear),
{
}

/// Home-all pre-flight lets a motor through exactly when it is `InBand` or
/// `Homed`; every other boot state (unclassified, out of band, recovering,
/// offset changed, auto-homing, home failed) makes it an offender, and the
/// offender list is empty exactly when every listed motor passes.
pub proof fn law_home_all_passes_only_in_band_or_homed(
    m: Map<Seq<char>, BootState>,
    roles: Seq<Seq<char>>,
    bs: BootState,
)
    ensures
        home_all_offense(bs) is None <==> (bs is InBand || bs is Homed),
        home_all_offenders(m, roles).len() == 0 <==> forall|k: int|
            0 <= k < roles.len() ==> (#[trigger] state_in(m, roles[k]) is InBand || state_in(m, roles[k]) is Homed),
    decreases roles.len(),
{
    if roles.len() > 0 {
        law_home_all_passes_only_in_band_or_homed(m, roles.drop_last(), bs);
        let rest = roles.drop_last();
        assert forall|k: int| 0 <= k < rest.len() implies #[trigger] rest[k] == roles[k] by {}
        if home_all_offenders(m, roles).len() == 0 {
            assert(home_all_offense(state_in(m, roles.last())) is None);
            assert(home_all_offenders(m, rest).len() == 0);
            assert forall|k: int| 0 <= k < roles.len() implies (#[trigger] state_in(m, roles[k]) is InBand
                || state_in(m, roles[k]) is Homed) by {
                if k < rest.len() {
                    assert(rest[k] == roles[k]);
                    assert(state_in(m, rest[k]) is InBand || state_in(m, rest[k]) is Homed);
                }
            }
        }
        if forall|k: int| 0 <= k < roles.len() ==> (#[trigger] state_in(m, roles[k]) is InBand || state_in(m, roles[k]) is Homed) {
            assert(state_in(m, roles[roles.len() - 1]) is InBand || state_in(m, roles[roles.len() - 1]) is Homed);
            assert forall|k: int| 0 <= k < rest.len() implies (#[trigger] state_in(m, rest[k]) is InBand
                || state_in(m, rest[k]) is Homed) by {
                assert(rest[k] == roles[k]);
                assert(state_in(m, roles[k]) is InBand || state_in(m, roles[k]) is Homed);
            }
        }
    }
}

/// An admitted jog is for a present motor (verified when required) with a
/// finite velocity, fresh telemetry, and a boot state that is neither
/// unclassified, out of band nor auto-recovering.
pub proof fn law_jog_admits_only_safe_states(
    m: Option<Actuator>,
    require_verified: bool,
    vel_finite: bool,
    bs: BootState,
    fresh: bool,
)
    requires
        jog_refusal(m, require_verified, vel_finite, bs, fresh) is None,
    ensures
        m matches Some(a) && a.common.present && (require_verified ==> a.common.verified),
        vel_finite,
        fresh,
        !(bs is Unknown),
        !(bs is OutOfBand),
        !(bs is AutoRecovering),
{
}

/// An admitted new role is canonical, differs from the old one and is free;
/// an enabled motor is never refused for being enabled: it goes through the
/// stop / re-enable cycle, except on the first assignment of an unassigned
/// motor, and a stopped motor never does.
pub proof fn law_rename_admission(
    devs: Seq<Device>,
    enabled: Set<Seq<char>>,
    role: Seq<char>,
    new_role: Seq<char>,
    assignment: bool,
)
    requires
        rename_refusal(devs, role, new_role) is None,
    ensures
        canonical_role_error(role_bytes(new_role)) is None,
        new_role != role,
        first_with_role(devs, new_role) is None,
        enabled.contains(role) && !(assignment && unassigned(motor_for(devs, role)->Some_0))
            ==> rename_stop_cycle(devs, enabled, role, assignment),
        !enabled.contains(role) ==> !rename_stop_cycle(devs, enabled, role, assignment),
{
}

} // verus!
