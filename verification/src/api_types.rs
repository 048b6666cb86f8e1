//! Request and response bodies of the REST endpoints whose logic lives in
//! this library (the daemon holds serializable copies of them).
use vstd::prelude::*;

verus! {

/// Body of `POST /api/hardware/scan` (accepted for forward compatibility).
#[derive(Debug)]
pub struct ScanBody {
    pub bus: Option<String>,
    pub id_min: Option<u8>,
    pub id_max: Option<u8>,
    pub timeout_ms: Option<u64>,
}

/// Response of `POST /api/home_all`: one result per limb, in limb order.
#[derive(Debug)]
pub struct HomeAllResp {
    pub ok: bool,
    pub results: Vec<(String, LimbResult)>,
}

/// How homing one limb went.
#[derive(Debug)]
pub struct LimbResult {
    pub status: String,
    pub homed: Vec<String>,
    pub failed_at: Option<String>,
    pub failure_reason: Option<String>,
}

/// Body of `PUT /api/motors/:role/verified`.
#[derive(Debug)]
pub struct VerifiedBody {
    pub verified: bool,
    pub note: Option<String>,
}

#[derive(Debug)]
pub struct VerifiedResp {
    pub ok: bool,
    pub verified: bool,
}

/// Query of `GET /api/logs`.
#[derive(Debug)]
pub struct ListQuery {
    /// Comma-separated levels, e.g. `warn,error`; missing means all.
    pub level: Option<String>,
    /// Comma-separated `tracing|audit`; missing means both.
    pub source: Option<String>,
    pub q: Option<String>,
    pub target: Option<String>,
    pub since_ms: Option<i64>,
    pub before_id: Option<i64>,
    /// Default 200, cap 1000.
    pub limit: Option<usize>,
}

/// Body of `PUT /api/logs/level`.
#[derive(Debug)]
pub struct PutLevelBody {
    pub raw: String,
}

/// Response of `POST /api/motors/:role/motion/stop`.
#[derive(Debug)]
pub struct StopResp {
    pub stopped: bool,
}

/// Body of `POST /api/motors/:role/rename`.
#[derive(Debug)]
pub struct RenameBody {
    pub new_role: String,
}

/// Body of `POST /api/motors/:role/assign`; `joint_kind` by its snake_case name.
#[derive(Debug)]
pub struct AssignBody {
    pub limb: String,
    pub joint_kind: String,
}

#[derive(Debug)]
pub struct RenameResp {
    pub ok: bool,
    pub new_role: String,
    /// The motor was enabled and was stopped for the rename.
    pub auto_stopped: bool,
    /// It was re-enabled under the new role afterwards.
    pub auto_reenabled: bool,
}

/// Response of `POST /api/motors/:role/tests/:name`.
#[derive(Debug)]
pub struct TestsResp {
    pub run_id: String,
}

} // verus!
