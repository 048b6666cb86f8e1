use rudydae::motion::{
    controller_step, drive_outcome, stop_is_normal, stop_reason_from_preflight, ControllerAction, ControllerEvent,
    MotionKind, MotionStopReason, PreflightFailure,
};

fn tick(preflight: Option<PreflightFailure>, kind: MotionKind, has_band: bool, lapsed: bool) -> ControllerAction {
    controller_step(ControllerEvent::Tick { preflight, kind, has_band, heartbeat_lapsed: lapsed })
}

#[test]
fn preflight_failures_map_to_stop_reasons() {
    assert!(matches!(stop_reason_from_preflight(&PreflightFailure::NoTelemetry), MotionStopReason::StaleTelemetry));
    assert!(matches!(stop_reason_from_preflight(&PreflightFailure::StaleTelemetry), MotionStopReason::StaleTelemetry));
    assert!(matches!(stop_reason_from_preflight(&PreflightFailure::PathViolation), MotionStopReason::TravelLimitViolation));
    assert!(matches!(stop_reason_from_preflight(&PreflightFailure::StepTooLarge), MotionStopReason::TravelLimitViolation));
    assert!(matches!(stop_reason_from_preflight(&PreflightFailure::Absent), MotionStopReason::BootStateLost));
    assert!(matches!(stop_reason_from_preflight(&PreflightFailure::LimbQuarantined), MotionStopReason::BootStateLost));
    match stop_reason_from_preflight(&PreflightFailure::Internal("bus down".into())) {
        MotionStopReason::BusError(s) => assert_eq!(s, "bus down"),
        other => panic!("unexpected {other:?}"),
    }
}

#[test]
fn controller_stops_on_requests_and_lost_clients() {
    assert!(matches!(
        controller_step(ControllerEvent::StopRequested { superseded: true }),
        ControllerAction::Stop(MotionStopReason::Superseded)
    ));
    assert!(matches!(
        controller_step(ControllerEvent::StopRequested { superseded: false }),
        ControllerAction::Stop(MotionStopReason::Operator)
    ));
    assert!(matches!(controller_step(ControllerEvent::Shutdown), ControllerAction::Stop(MotionStopReason::Shutdown)));
    assert!(matches!(controller_step(ControllerEvent::IntentClosed), ControllerAction::Stop(MotionStopReason::ClientGone)));
    assert!(matches!(
        controller_step(ControllerEvent::IntentChanged { kind: MotionKind::Jog }),
        ControllerAction::RefreshHeartbeat
    ));
    assert!(matches!(controller_step(ControllerEvent::IntentChanged { kind: MotionKind::Wave }), ControllerAction::Wait));
}

#[test]
fn controller_tick_decisions() {
    assert!(matches!(
        tick(Some(PreflightFailure::OutOfBand), MotionKind::Wave, true, false),
        ControllerAction::Stop(MotionStopReason::TravelLimitViolation)
    ));
    assert!(matches!(
        tick(None, MotionKind::Sweep, false, false),
        ControllerAction::Stop(MotionStopReason::TravelLimitViolation)
    ));
    assert!(matches!(tick(None, MotionKind::Sweep, true, false), ControllerAction::ComputeVelocity));
    assert!(matches!(tick(None, MotionKind::Wave, false, true), ControllerAction::ComputeVelocity));
    assert!(matches!(
        tick(None, MotionKind::Jog, false, true),
        ControllerAction::Stop(MotionStopReason::HeartbeatLapsed)
    ));
    assert!(matches!(tick(None, MotionKind::Jog, false, false), ControllerAction::ComputeVelocity));
}

#[test]
fn drive_outcome_checks_projection_then_bus() {
    assert!(drive_outcome(None, Ok(())).is_none());
    assert!(matches!(drive_outcome(Some(PreflightFailure::OutOfBand), Ok(())), Some(MotionStopReason::TravelLimitViolation)));
    match drive_outcome(None, Err("tx queue full".into())) {
        Some(MotionStopReason::BusError(s)) => assert_eq!(s, "tx queue full"),
        other => panic!("unexpected {other:?}"),
    }
    assert!(stop_is_normal(&MotionStopReason::Operator));
    assert!(stop_is_normal(&MotionStopReason::Shutdown));
    assert!(!stop_is_normal(&MotionStopReason::HeartbeatLapsed));
}
