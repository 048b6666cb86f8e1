use rudydae::api_types::{RenameResp, StopResp, TestsResp, VerifiedResp};

/// Sanity check: the URL paths the SPA constructs.
#[test]
fn endpoint_inventory_documented() {
    let _spa_endpoints = [
        "GET    /api/config",
        "GET    /api/system",
        "GET    /api/motors",
        "GET    /api/motors/:role",
        "GET    /api/motors/:role/feedback",
        "GET    /api/motors/:role/params",
        "PUT    /api/motors/:role/params/:name",
        "POST   /api/motors/:role/enable",
        "POST   /api/motors/:role/stop",
        "POST   /api/motors/:role/save",
        "POST   /api/motors/:role/set_zero",
        "POST   /api/motors/:role/commission",
        "POST   /api/motors/:role/restore_offset",
        "GET    /api/motors/:role/travel_limits",
        "PUT    /api/motors/:role/travel_limits",
        "POST   /api/motors/:role/jog",
        "GET    /api/motors/:role/motion",
        "POST   /api/motors/:role/motion/sweep",
        "POST   /api/motors/:role/motion/wave",
        "POST   /api/motors/:role/motion/jog",
        "POST   /api/motors/:role/motion/stop",
        "POST   /api/motors/:role/home",
        "POST   /api/motors/:role/rename",
        "POST   /api/motors/:role/assign",
        "POST   /api/home_all",
        "POST   /api/motors/:role/tests/:name",
        "GET    /api/motors/:role/inventory",
        "PUT    /api/motors/:role/verified",
        "POST   /api/estop",
        "GET    /api/reminders",
        "POST   /api/reminders",
        "PUT    /api/reminders/:id",
        "DELETE /api/reminders/:id",
    ];
}

#[test]
fn response_bodies_carry_their_fields() {
    let r = RenameResp { ok: true, new_role: "left.elbow".into(), auto_stopped: false, auto_reenabled: false };
    assert!(r.ok);
    assert_eq!(r.new_role, "left.elbow");
    assert!(!StopResp { stopped: false }.stopped);
    assert_eq!(TestsResp { run_id: "abc".into() }.run_id, "abc");
    let v = VerifiedResp { ok: true, verified: true };
    assert!(v.ok && v.verified);
}
