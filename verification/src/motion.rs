//! Decisions of the per-motor motion controller (sweep / wave / jog).
//!
//! The controller loop waits for an event (a stop request, shutdown, an
//! intent update, or a tick), runs the preflight checks on every tick, and
//! either drives one velocity setpoint or stops with a reason. The velocity
//! itself (sweep and wave step functions on measured angles) and the bus
//! writes stay with the daemon; what to do next is decided here.
use vstd::prelude::*;

verus! {

/// Why the per-tick preflight refused motion.
#[derive(Debug)]
pub enum PreflightFailure {
    UnknownMotor,
    /// The inventory row has `present: false`.
    Absent,
    NotVerified,
    /// The boot-time gate has not classified the motor yet.
    BootNotReady,
    /// The boot-time gate holds the motor out of band.
    BootOutOfBand,
    AutoRecoveryInProgress,
    /// The motor's limb is quarantined.
    LimbQuarantined,
    /// The latest telemetry row is too old.
    StaleTelemetry,
    NoTelemetry,
    /// The projected position leaves the travel band.
    OutOfBand,
    /// The swept arc crosses the band edge.
    PathViolation,
    /// A step larger than allowed before homing.
    StepTooLarge,
    Internal(String),
}

/// Why a motion run ended.
#[derive(Debug)]
pub enum MotionStopReason {
    /// The operator asked for a stop.
    Operator,
    /// Another request for the same motor replaced this run.
    Superseded,
    /// The daemon is shutting down.
    Shutdown,
    /// The client's intent channel went away.
    ClientGone,
    TravelLimitViolation,
    /// A jog's dead-man heartbeat was not refreshed in time.
    HeartbeatLapsed,
    StaleTelemetry,
    /// The motor's boot state or inventory row no longer allows motion.
    BootStateLost,
    BusError(String),
}

/// Stop reason a preflight failure maps to.
pub open spec fn preflight_stop_reason(e: PreflightFailure) -> MotionStopReason {
    match e {
        PreflightFailure::StaleTelemetry => MotionStopReason::StaleTelemetry,
        PreflightFailure::NoTelemetry => MotionStopReason::StaleTelemetry,
        PreflightFailure::OutOfBand => MotionStopReason::TravelLimitViolation,
        PreflightFailure::PathViolation => MotionStopReason::TravelLimitViolation,
        PreflightFailure::StepTooLarge => MotionStopReason::TravelLimitViolation,
        PreflightFailure::Internal(s) => MotionStopReason::BusError(s),
        _ => MotionStopReason::BootStateLost,
    }
}

/// Telemetry failures stop with `StaleTelemetry`, band failures with
/// `TravelLimitViolation`, internal errors as bus errors, and every
/// gate-state failure with `BootStateLost`.
pub fn stop_reason_from_preflight(e: &PreflightFailure) -> (r: MotionStopReason)
    ensures
        r == preflight_stop_reason(*e),
{
    match e {
        PreflightFailure::StaleTelemetry => MotionStopReason::StaleTelemetry,
        PreflightFailure::NoTelemetry => MotionStopReason::StaleTelemetry,
        PreflightFailure::OutOfBand => MotionStopReason::TravelLimitViolation,
        PreflightFailure::PathViolation => MotionStopReason::TravelLimitViolation,
        PreflightFailure::StepTooLarge => MotionStopReason::TravelLimitViolation,
        PreflightFailure::Internal(s) => MotionStopReason::BusError(s.clone()),
        PreflightFailure::UnknownMotor => MotionStopReason::BootStateLost,
        PreflightFailure::Absent => MotionStopReason::BootStateLost,
        PreflightFailure::NotVerified => MotionStopReason::BootStateLost,
        PreflightFailure::BootNotReady => MotionStopReason::BootStateLost,
        PreflightFailure::BootOutOfBand => MotionStopReason::BootStateLost,
        PreflightFailure::AutoRecoveryInProgress => MotionStopReason::BootStateLost,
        PreflightFailure::LimbQuarantined => MotionStopReason::BootStateLost,
    }
}

/// Is a run that ended for `r` audited as a normal end (`ok`) rather than
/// an abort (`denied`)?
pub open spec fn ended_normally(r: MotionStopReason) -> bool {
    match r {
        MotionStopReason::Operator => true,
        MotionStopReason::ClientGone => true,
        MotionStopReason::Superseded => true,
        MotionStopReason::Shutdown => true,
        _ => false,
    }
}

pub fn stop_is_normal(r: &MotionStopReason) -> (b: bool)
    ensures
        b == ended_normally(*r),
{
    match r {
        MotionStopReason::Operator => true,
        MotionStopReason::ClientGone => true,
        MotionStopReason::Superseded => true,
        MotionStopReason::Shutdown => true,
        _ => false,
    }
}

/// The pattern a run follows.
#[derive(Debug, Clone, Copy, PartialEq, Eq, Structural)]
pub enum MotionKind {
    Sweep,
    Wave,
    Jog,
}

/// What woke the controller.
#[derive(Debug)]
pub enum ControllerEvent {
    /// A stop request; `superseded` when a newer run for the motor caused it.
    StopRequested { superseded: bool },
    Shutdown,
    /// The intent channel closed.
    IntentClosed,
    /// A new intent arrived.
    IntentChanged { kind: MotionKind },
    /// The tick: the zero-velocity preflight verdict, the current intent,
    /// whether the motor has a travel band, and whether a jog's heartbeat
    /// deadline has passed.
    Tick { preflight: Option<PreflightFailure>, kind: MotionKind, has_band: bool, heartbeat_lapsed: bool },
}

/// What the controller does next.
#[derive(Debug)]
pub enum ControllerAction {
    /// Stop the motor and end the run.
    Stop(MotionStopReason),
    /// Push the jog's heartbeat deadline out and wait for the next event.
    RefreshHeartbeat,
    /// Wait for the next event.
    Wait,
    /// Compute the pattern's velocity and check the projected position.
    ComputeVelocity,
}

pub open spec fn controller_step_spec(ev: ControllerEvent) -> ControllerAction {
    match ev {
        ControllerEvent::StopRequested { superseded } => if superseded {
            ControllerAction::Stop(MotionStopReason::Superseded)
        } else {
            ControllerAction::Stop(MotionStopReason::Operator)
        },
        ControllerEvent::Shutdown => ControllerAction::Stop(MotionStopReason::Shutdown),
        ControllerEvent::IntentClosed => ControllerAction::Stop(MotionStopReason::ClientGone),
        ControllerEvent::IntentChanged { kind } => if kind == MotionKind::Jog {
            ControllerAction::RefreshHeartbeat
        } else {
            ControllerAction::Wait
        },
        ControllerEvent::Tick { preflight, kind, has_band, heartbeat_lapsed } => match preflight {
            Some(e) => ControllerAction::Stop(preflight_stop_reason(e)),
            None => if kind == MotionKind::Sweep && !has_band {
                ControllerAction::Stop(MotionStopReason::TravelLimitViolation)
            } else if kind == MotionKind::Jog && heartbeat_lapsed {
                ControllerAction::Stop(MotionStopReason::HeartbeatLapsed)
            } else {
                ControllerAction::ComputeVelocity
            },
        },
    }
}

/// One decision of the controller loop on an event.
pub fn controller_step(ev: ControllerEvent) -> (a: ControllerAction)
    ensures
        a == controller_step_spec(ev),
{
    match ev {
        ControllerEvent::StopRequested { superseded } => if superseded {
            ControllerAction::Stop(MotionStopReason::Superseded)
        } else {
            ControllerAction::Stop(MotionStopReason::Operator)
        },
        ControllerEvent::Shutdown => ControllerAction::Stop(MotionStopReason::Shutdown),
        ControllerEvent::IntentClosed => ControllerAction::Stop(MotionStopReason::ClientGone),
        ControllerEvent::IntentChanged { kind } => match kind {
            MotionKind::Jog => ControllerAction::RefreshHeartbeat,
            _ => ControllerAction::Wait,
        },
        ControllerEvent::Tick { preflight, kind, has_band, heartbeat_lapsed } => match preflight {
            Some(e) => ControllerAction::Stop(stop_reason_from_preflight(&e)),
            None => match kind {
                MotionKind::Sweep => if !has_band {
                    ControllerAction::Stop(MotionStopReason::TravelLimitViolation)
                } else {
                    ControllerAction::ComputeVelocity
                },
                MotionKind::Jog => if heartbeat_lapsed {
                    ControllerAction::Stop(MotionStopReason::HeartbeatLapsed)
                } else {
                    ControllerAction::ComputeVelocity
                },
                MotionKind::Wave => ControllerAction::ComputeVelocity,
            },
        },
    }
}

/// After the velocity is computed: the preflight verdict on the projected
/// position, then the bus write. `None`: the setpoint went out and the
/// run goes on (the motor counts as enabled).
pub fn drive_outcome(projected: Option<PreflightFailure>, sent: Result<(), String>) -> (r: Option<
    MotionStopReason,
>)
    ensures
        r == (match projected {
            Some(e) => Some(preflight_stop_reason(e)),
            None => match sent {
                Err(s) => Some(MotionStopReason::BusError(s)),
                Ok(()) => None,
            },
        }),
{
    match projected {
        Some(e) => Some(stop_reason_from_preflight(&e)),
        None => match sent {
            Err(s) => Some(MotionStopReason::BusError(s)),
            Ok(()) => None,
        },
    }
}

/// A run never drives on a tick whose preflight failed, and a jog whose
/// heartbeat lapsed always stops.
pub proof fn law_controller_fails_closed(
    preflight: Option<PreflightFailure>,
    kind: MotionKind,
    has_band: bool,
    heartbeat_lapsed: bool,
)
    ensures
        ({
            let a = controller_step_spec(
                ControllerEvent::Tick { preflight, kind, has_band, heartbeat_lapsed },
            );
            &&& preflight is Some ==> a is Stop
            &&& (kind == MotionKind::Jog && heartbeat_lapsed) ==> a is Stop
            &&& (kind == MotionKind::Sweep && !has_band) ==> a is Stop
        }),
{
}

} // verus!
