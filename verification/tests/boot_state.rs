use rudydae::boot_state::{BandReading, BootState, BootStates, ClassifyOutcome};
use rudydae::types::F32Bits;

fn rad(v: f32) -> F32Bits {
    F32Bits(v.to_bits())
}

#[test]
fn boot_state_permits_enable_only_when_homed() {
    assert!(BootState::Homed.permits_enable());
    assert!(!BootState::InBand.permits_enable());
    assert!(!BootState::Unknown.permits_enable());
    assert!(!BootState::OutOfBand {
        mech_pos_rad: rad(0.0),
        min_rad: rad(0.0),
        max_rad: rad(0.0),
    }
    .permits_enable());
}

#[test]
fn new_boot_state_variants_refuse_enable() {
    let oc = BootState::OffsetChanged { stored_rad: rad(0.0), current_rad: rad(0.5) };
    let ah = BootState::AutoHoming {
        from_rad: rad(0.0),
        target_rad: rad(0.0),
        progress_rad: rad(0.0),
    };
    let hf = BootState::HomeFailed { reason: "tracking_error".into(), last_pos_rad: rad(0.42) };
    assert!(!oc.permits_enable());
    assert!(!ah.permits_enable());
    assert!(!hf.permits_enable());
    assert!(!oc.is_auto_recovering());
    assert!(!ah.is_auto_recovering());
    assert!(!hf.is_auto_recovering());
}

#[test]
fn untracked_motor_is_unknown() {
    let t = BootStates::new();
    assert!(matches!(t.current("a.m1"), BootState::Unknown));
}

#[test]
fn first_classification_lands_in_band() {
    let mut t = BootStates::new();
    let out = t.classify("a.m1", BandReading::Inside);
    assert!(matches!(out, ClassifyOutcome::Changed { new: BootState::InBand, prev: BootState::Unknown }));
    assert!(matches!(t.current("a.m1"), BootState::InBand));
    // Same reading again: unchanged.
    assert!(matches!(t.classify("a.m1", BandReading::Inside), ClassifyOutcome::Unchanged));
}

#[test]
fn classify_never_demotes_homed() {
    let mut t = BootStates::new();
    t.mark_homed("a.m1");
    let out = t.classify(
        "a.m1",
        BandReading::Outside { principal_rad: rad(2.0), min_rad: rad(-1.0), max_rad: rad(1.0) },
    );
    assert!(matches!(out, ClassifyOutcome::Unchanged));
    assert!(matches!(t.current("a.m1"), BootState::Homed));
}

#[test]
fn classify_outside_records_band() {
    let mut t = BootStates::new();
    t.classify(
        "a.m1",
        BandReading::Outside { principal_rad: rad(2.0), min_rad: rad(-1.0), max_rad: rad(1.0) },
    );
    match t.current("a.m1") {
        BootState::OutOfBand { mech_pos_rad, min_rad, max_rad } => {
            assert_eq!(mech_pos_rad, rad(2.0));
            assert_eq!(min_rad, rad(-1.0));
            assert_eq!(max_rad, rad(1.0));
        }
        other => panic!("unexpected {other:?}"),
    }
}

#[test]
fn no_band_classifies_in_band_and_non_finite_unknown() {
    let mut t = BootStates::new();
    t.classify("a.m1", BandReading::NoBand);
    assert!(matches!(t.current("a.m1"), BootState::InBand));
    t.classify("a.m1", BandReading::NonFinite);
    assert!(matches!(t.current("a.m1"), BootState::Unknown));
}

#[test]
fn set_zero_revokes_enable() {
    let mut t = BootStates::new();
    t.mark_homed("a.m1");
    assert!(t.current("a.m1").permits_enable());
    t.reset_to_unknown("a.m1");
    assert!(!t.current("a.m1").permits_enable());
}

#[test]
fn transition_touches_only_its_motor() {
    let mut t = BootStates::new();
    t.mark_homed("a.m1");
    t.classify("a.m2", BandReading::Inside);
    assert!(matches!(t.current("a.m1"), BootState::Homed));
    assert!(matches!(t.current("a.m2"), BootState::InBand));
}

#[test]
fn auto_homing_progress_updates_only_while_homing() {
    let mut t = BootStates::new();
    t.update_auto_homing_progress("a.m1", rad(0.3));
    assert!(matches!(t.current("a.m1"), BootState::Unknown));
    t.force_set_auto_homing("a.m1", rad(0.5), rad(0.0));
    t.update_auto_homing_progress("a.m1", rad(0.3));
    match t.current("a.m1") {
        BootState::AutoHoming { from_rad, target_rad, progress_rad } => {
            assert_eq!(from_rad, rad(0.5));
            assert_eq!(target_rad, rad(0.0));
            assert_eq!(progress_rad, rad(0.3));
        }
        other => panic!("unexpected {other:?}"),
    }
}

#[test]
fn auto_recovery_is_a_transition_and_tracks_progress() {
    let mut t = BootStates::new();
    t.mark_auto_recovering("a.m1", rad(1.5), rad(0.9));
    assert!(t.current("a.m1").is_auto_recovering());
    t.update_auto_recovery_progress("a.m1", rad(0.2));
    match t.current("a.m1") {
        BootState::AutoRecovering { progress_rad, .. } => assert_eq!(progress_rad, rad(0.2)),
        other => panic!("unexpected {other:?}"),
    }
    // Homed motors are never demoted into auto-recovery.
    let mut h = BootStates::new();
    h.mark_homed("a.m1");
    h.mark_auto_recovering("a.m1", rad(1.5), rad(0.9));
    assert!(matches!(h.current("a.m1"), BootState::Homed));
}

#[test]
fn rename_carries_state_to_new_role() {
    let mut t = BootStates::new();
    t.mark_homed("a.m1");
    t.rename_role("a.m1", "b.m1");
    assert!(matches!(t.current("b.m1"), BootState::Homed));
    assert!(matches!(t.current("a.m1"), BootState::Unknown));
}

#[test]
fn same_as_compares_home_failed_reasons() {
    let a = BootState::HomeFailed { reason: "x".into(), last_pos_rad: rad(0.1) };
    let b = BootState::HomeFailed { reason: "x".into(), last_pos_rad: rad(0.1) };
    let c = BootState::HomeFailed { reason: "y".into(), last_pos_rad: rad(0.1) };
    assert!(a.same_as(&b));
    assert!(!a.same_as(&c));
    assert!(a.duplicate().same_as(&a));
}
