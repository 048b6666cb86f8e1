use rudydae::control_lock::{ControlGrant, ControlLock};

#[test]
fn anonymous_request_passes_but_never_claims() {
    let mut l = ControlLock::new();
    assert_eq!(l.ensure_control_at("", 10), Ok(ControlGrant::Unclaimed));
    assert_eq!(l.holder_id(), None);
}

#[test]
fn holder_keeps_lock_until_release() {
    let mut l = ControlLock::new();
    assert_eq!(l.ensure_control_at("a", 10), Ok(ControlGrant::Claimed));
    assert_eq!(l.ensure_control_at("b", 20), Err("a".to_string()));
    assert!(!l.has_control("b"));
    assert!(l.has_control("a"));
    assert!(!l.release_control("b"));
    assert!(l.release_control("a"));
    assert!(l.has_control("b"));
    assert_eq!(l.holder_id(), None);
}

#[test]
fn explicit_acquire_takes_over() {
    let mut l = ControlLock::new();
    l.ensure_control_at("a", 10);
    let prev = l.acquire_control_at("b", 30);
    assert_eq!(prev, Some(("a".to_string(), 10)));
    let st = l.lock_state(Some("b"));
    assert_eq!(st.holder.as_deref(), Some("b"));
    assert_eq!(st.acquired_at_ms, Some(30));
    assert!(st.you_hold);
    assert!(!l.lock_state(Some("a")).you_hold);
}
