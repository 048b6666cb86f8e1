//! Wire types shared between the daemon and the operator console.
//!
//! Angles, voltages and temperatures travel through the library as
//! [`F32Bits`]: the IEEE-754 single-precision encoding of the value. The
//! library carries them and compares them for identity, but never does
//! arithmetic on them.
use vstd::prelude::*;

use crate::clock;

verus! {

/// IEEE-754 binary32 encoding of a measured or configured quantity.
#[derive(Clone, Copy, PartialEq, Eq, Structural, Debug)]
pub struct F32Bits(pub u32);

/// GET /api/config — what the UI needs to bootstrap.
#[derive(Debug)]
pub struct ServerConfig {
    pub version: String,
    pub actuator_model: String,
    pub webtransport: WebTransportAdvert,
    pub features: ServerFeatures,
}

#[derive(Debug)]
pub struct WebTransportAdvert {
    pub enabled: bool,
    /// Fully-qualified URL the browser should open.
    pub url: Option<String>,
}

#[derive(Debug, Clone, Copy, PartialEq, Eq, Structural)]
pub struct ServerFeatures {
    pub mock_can: bool,
    pub require_verified: bool,
}

/// One snapshot of telemetry for a motor.
#[derive(Debug, Clone)]
pub struct MotorFeedback {
    /// Milliseconds since unix epoch.
    pub t_ms: i64,
    pub role: String,
    pub can_id: u8,
    pub mech_pos_rad: F32Bits,
    pub mech_vel_rad_s: F32Bits,
    pub torque_nm: F32Bits,
    pub vbus_v: F32Bits,
    pub temp_c: F32Bits,
    pub fault_sta: u32,
    pub warn_sta: u32,
}

/// What `GET /api/motors` reports of one motor: its inventory row, its
/// latest telemetry and its boot-time gate state.
#[derive(Debug)]
pub struct MotorSummary {
    pub role: String,
    pub can_bus: String,
    pub can_id: u8,
    pub firmware_version: Option<String>,
    pub verified: bool,
    pub present: bool,
    pub travel_limits: Option<crate::inventory::TravelLimits>,
    pub latest: Option<MotorFeedback>,
    /// Per-power-cycle gate state.
    pub boot_state: crate::boot_state::BootState,
    /// Limb assignment, if any.
    pub limb: Option<String>,
    /// Position in the kinematic chain, if assigned.
    pub joint_kind: Option<String>,
}

/// Standard error envelope for API responses.
#[derive(Debug)]
pub struct ApiError {
    pub error: String,
    pub detail: Option<String>,
}

/// GET /api/system - host metrics for the operator-console dashboard.
#[derive(Debug)]
pub struct SystemSnapshot {
    pub t_ms: i64,
    pub cpu_pct: F32Bits,
    /// 1, 5, 15-minute load average.
    pub load: [F32Bits; 3],
    pub mem_used_mb: u64,
    pub mem_total_mb: u64,
    pub temps_c: SystemTemps,
    pub throttled: SystemThrottled,
    pub uptime_s: u64,
    pub hostname: String,
    pub kernel: String,
    pub is_mock: bool,
}

#[derive(Debug, Clone, Copy, PartialEq, Eq, Structural)]
pub struct SystemTemps {
    pub cpu: Option<F32Bits>,
    pub gpu: Option<F32Bits>,
}

/// Power/thermal throttling state.
#[derive(Debug)]
pub struct SystemThrottled {
    pub now: bool,
    pub ever: bool,
    pub raw_hex: Option<String>,
}

/// Bench-routine name accepted by `POST /api/motors/:role/tests/:name`.
#[derive(Debug, Clone, Copy, PartialEq, Eq, Structural, Hash)]
pub enum TestName {
    Read,
    SetZero,
    Smoke,
    Jog,
    JogOverlimit,
}

pub open spec fn test_name_label(t: TestName) -> Seq<char> {
    match t {
        TestName::Read => "read"@,
        TestName::SetZero => "set_zero"@,
        TestName::Smoke => "smoke"@,
        TestName::Jog => "jog"@,
        TestName::JogOverlimit => "jog_overlimit"@,
    }
}

impl TestName {
    /// Wire name of the routine.
    pub fn as_str(self) -> (r: &'static str)
        ensures
            r@ == test_name_label(self),
    {
        match self {
            TestName::Read => "read",
            TestName::SetZero => "set_zero",
            TestName::Smoke => "smoke",
            TestName::Jog => "jog",
            TestName::JogOverlimit => "jog_overlimit",
        }
    }
}

/// Severity for one [`TestProgress`] line.
#[derive(Debug, Clone, Copy, PartialEq, Eq, Structural)]
pub enum TestLevel {
    Info,
    Warn,
    Pass,
    Fail,
}

/// One progress line for a running bench routine.
#[derive(Debug)]
pub struct TestProgress {
    pub run_id: String,
    pub role: String,
    /// Per-run monotonic line counter.
    pub seq: u64,
    pub t_ms: i64,
    pub step: String,
    pub level: TestLevel,
    pub message: String,
}

/// Reliable broadcast for safety-relevant transitions.
#[derive(Debug, Clone)]
pub enum SafetyEvent {
    Estop { t_ms: i64, source: String },
    LockChanged { t_ms: i64, holder: Option<String> },
    TravelLimitViolation {
        t_ms: i64,
        role: String,
        attempted_rad: F32Bits,
        min_rad: F32Bits,
        max_rad: F32Bits,
    },
    AutoRecoveryAttempted {
        t_ms: i64,
        role: String,
        from_rad: F32Bits,
        target_rad: F32Bits,
        delta_rad: F32Bits,
    },
    AutoRecoverySucceeded { t_ms: i64, role: String, final_pos_rad: F32Bits, ticks: u32 },
    AutoRecoveryFailed { t_ms: i64, role: String, reason: String, last_pos_rad: F32Bits },
    AutoRecoveryRefused { t_ms: i64, role: String, reason: String, delta_rad: F32Bits },
    Homed { t_ms: i64, role: String, final_pos_rad: F32Bits, samples_count: u32 },
    MotorRenamed { t_ms: i64, old_role: String, new_role: String },
    Commissioned { t_ms: i64, role: String, offset_rad: F32Bits },
    OffsetChanged { t_ms: i64, role: String, stored_rad: F32Bits, current_rad: F32Bits },
    HomeFailed { t_ms: i64, role: String, reason: String, last_pos_rad: F32Bits },
    AutoHomed {
        t_ms: i64,
        role: String,
        from_rad: F32Bits,
        target_rad: F32Bits,
        ticks: u32,
    },
}

/// One operator reminder.
#[derive(Debug)]
pub struct Reminder {
    pub id: String,
    pub text: String,
    /// Optional ISO 8601 due date.
    pub due_at: Option<String>,
    pub done: bool,
    pub created_ms: i64,
}

/// Severity level for a captured log entry (`trace=0 .. error=4` in storage).
#[derive(Debug, Clone, Copy, PartialEq, Eq, Structural, PartialOrd, Ord)]
pub enum LogLevel {
    Trace,
    Debug,
    Info,
    Warn,
    Error,
}

pub open spec fn level_code(l: LogLevel) -> i64 {
    match l {
        LogLevel::Trace => 0,
        LogLevel::Debug => 1,
        LogLevel::Info => 2,
        LogLevel::Warn => 3,
        LogLevel::Error => 4,
    }
}

/// Decoding of a stored level; unknown codes read back as `Info`.
pub open spec fn level_of_code(v: i64) -> LogLevel {
    if v == 0 {
        LogLevel::Trace
    } else if v == 1 {
        LogLevel::Debug
    } else if v == 3 {
        LogLevel::Warn
    } else if v == 4 {
        LogLevel::Error
    } else {
        LogLevel::Info
    }
}

/// Level named by an already lower-cased word, if any.
pub open spec fn level_of_word(w: Seq<char>) -> Option<LogLevel> {
    if w == "trace"@ {
        Some(LogLevel::Trace)
    } else if w == "debug"@ {
        Some(LogLevel::Debug)
    } else if w == "info"@ {
        Some(LogLevel::Info)
    } else if w == "warn"@ || w == "warning"@ {
        Some(LogLevel::Warn)
    } else if w == "error"@ {
        Some(LogLevel::Error)
    } else {
        None
    }
}

/// Case-insensitive level name, as accepted by `from_str_loose`.
pub open spec fn level_of_name(s: Seq<char>) -> Option<LogLevel> {
    level_of_word(crate::text::lower_seq(s))
}

impl LogLevel {
    pub fn as_i64(self) -> (r: i64)
        ensures
            r == level_code(self),
    {
        match self {
            LogLevel::Trace => 0,
            LogLevel::Debug => 1,
            LogLevel::Info => 2,
            LogLevel::Warn => 3,
            LogLevel::Error => 4,
        }
    }

    pub fn from_i64(v: i64) -> (r: LogLevel)
        ensures
            r == level_of_code(v),
    {
        match v {
            0 => LogLevel::Trace,
            1 => LogLevel::Debug,
            3 => LogLevel::Warn,
            4 => LogLevel::Error,
            _ => LogLevel::Info,
        }
    }

    /// Parse a level name, ignoring ASCII case; `warning` is accepted for `warn`.
    pub fn from_str_loose(s: &str) -> (r: Option<LogLevel>)
        ensures
            r == level_of_name(s@),
    {
        let chars = crate::text::chars_of(s);
        let lower = crate::text::lower_chars(chars.as_slice());
        level_from_lower(lower.as_slice())
    }
}

/// Match an already lower-cased word against the level names.
pub fn level_from_lower(w: &[char]) -> (r: Option<LogLevel>)
    ensures
        r == level_of_word(w@),
{
    if literal_eq(w, "trace") {
        Some(LogLevel::Trace)
    } else if literal_eq(w, "debug") {
        Some(LogLevel::Debug)
    } else if literal_eq(w, "info") {
        Some(LogLevel::Info)
    } else if literal_eq(w, "warn") || literal_eq(w, "warning") {
        Some(LogLevel::Warn)
    } else if literal_eq(w, "error") {
        Some(LogLevel::Error)
    } else {
        None
    }
}

/// Compare characters against a string.
pub fn literal_eq(w: &[char], lit: &str) -> (r: bool)
    ensures
        r == (w@ == lit@),
{
    let l = crate::text::chars_of(lit);
    crate::text::chars_eq(w, l.as_slice())
}

/// Where a log entry came from.
#[derive(Debug, Clone, Copy, PartialEq, Eq, Structural)]
pub enum LogSource {
    Tracing,
    Audit,
}

pub open spec fn source_code(s: LogSource) -> i64 {
    match s {
        LogSource::Tracing => 0,
        LogSource::Audit => 1,
    }
}

impl LogSource {
    pub fn as_i64(self) -> (r: i64)
        ensures
            r == source_code(self),
    {
        match self {
            LogSource::Tracing => 0,
            LogSource::Audit => 1,
        }
    }

    /// Decoding of a stored source; anything but `1` reads back as `Tracing`.
    pub fn from_i64(v: i64) -> (r: LogSource)
        ensures
            r == (if v == 1 {
                LogSource::Audit
            } else {
                LogSource::Tracing
            }),
    {
        match v {
            1 => LogSource::Audit,
            _ => LogSource::Tracing,
        }
    }
}

/// Storing a level and reading it back yields the same level.
pub proof fn law_level_code_round_trip(l: LogLevel)
    ensures
        level_of_code(level_code(l)) == l,
{
}

/// Storing a source and reading it back yields the same source.
pub proof fn law_source_code_round_trip(s: LogSource)
    ensures
        (if source_code(s) == 1 {
            LogSource::Audit
        } else {
            LogSource::Tracing
        }) == s,
{
}

/// Level codes follow severity: a more severe level has a larger code.
pub proof fn law_level_codes_ordered(a: LogLevel, b: LogLevel)
    ensures
        level_code(a) == level_code(b) <==> a == b,
        0 <= level_code(a) <= 4,
{
}

/// One captured log entry — the unit the Logs page paginates and tails.
#[derive(Debug)]
pub struct LogEntry {
    pub id: i64,
    pub t_ms: i64,
    pub level: LogLevel,
    pub source: LogSource,
    pub target: String,
    pub message: String,
    /// JSON object text of the free-form key/value bag.
    pub fields: String,
    pub span: Option<String>,
    pub action: Option<String>,
    pub audit_target: Option<String>,
    pub result: Option<String>,
    pub session_id: Option<String>,
    pub remote: Option<String>,
}

/// One parsed filter directive. `target = None` means the bare default level.
#[derive(Debug)]
pub struct LogFilterDirective {
    pub target: Option<String>,
    pub level: LogLevel,
}

/// Snapshot of the runtime tracing-filter state.
#[derive(Debug)]
pub struct LogFilterState {
    pub default: LogLevel,
    pub directives: Vec<LogFilterDirective>,
    pub raw: String,
}

/// POST /api/reminders body and PUT /api/reminders/:id body.
#[derive(Debug)]
pub struct ReminderInput {
    pub text: String,
    pub due_at: Option<String>,
    pub done: bool,
}

/// WebTransport subscription request.
#[derive(Debug)]
pub struct WtSubscribe {
    /// Stream kinds the client wants. Empty list means "all".
    pub kinds: Vec<WtKind>,
    pub filters: WtSubscribeFilters,
}

/// Per-kind narrow filters; empty means "no narrowing".
#[derive(Debug)]
pub struct WtSubscribeFilters {
    pub motor_roles: Vec<String>,
    pub run_ids: Vec<String>,
}

impl WtSubscribeFilters {
    pub fn new() -> (r: WtSubscribeFilters)
        ensures
            r.motor_roles@.len() == 0,
            r.run_ids@.len() == 0,
    {
        WtSubscribeFilters { motor_roles: Vec::new(), run_ids: Vec::new() }
    }
}

/// Current WebTransport envelope schema version.
pub const WT_PROTOCOL_VERSION: u8 = 1;

/// Network reliability tier for a WebTransport stream.
#[derive(Debug, Clone, Copy, PartialEq, Eq, Structural)]
pub enum WtTransport {
    Datagram,
    Stream,
}

/// Typed discriminator of every WebTransport stream.
#[derive(Debug, Clone, Copy, PartialEq, Eq, Structural, Hash)]
pub enum WtKind {
    /// One motor's latest telemetry sample.
    MotorFeedback,
    /// Host-system metrics.
    SystemSnapshot,
    /// One progress line for a running bench routine.
    TestProgress,
    /// E-stop / control-lock / travel-band events.
    SafetyEvent,
    /// Live status from a server-side motion controller.
    MotionStatus,
    /// One captured log entry.
    LogEvent,
}

pub open spec fn wt_kind_label(k: WtKind) -> Seq<char> {
    match k {
        WtKind::MotorFeedback => "motor_feedback"@,
        WtKind::SystemSnapshot => "system_snapshot"@,
        WtKind::TestProgress => "test_progress"@,
        WtKind::SafetyEvent => "safety_event"@,
        WtKind::MotionStatus => "motion_status"@,
        WtKind::LogEvent => "log_event"@,
    }
}

pub open spec fn wt_kind_transport(k: WtKind) -> WtTransport {
    match k {
        WtKind::MotorFeedback => WtTransport::Datagram,
        WtKind::SystemSnapshot => WtTransport::Datagram,
        WtKind::TestProgress => WtTransport::Stream,
        WtKind::SafetyEvent => WtTransport::Stream,
        WtKind::MotionStatus => WtTransport::Datagram,
        WtKind::LogEvent => WtTransport::Stream,
    }
}

/// Declaration order of the streams.
pub open spec fn wt_kind_order() -> Seq<WtKind> {
    seq![
        WtKind::MotorFeedback,
        WtKind::SystemSnapshot,
        WtKind::TestProgress,
        WtKind::SafetyEvent,
        WtKind::MotionStatus,
        WtKind::LogEvent,
    ]
}

/// Position of a kind in declaration order.
pub open spec fn wt_kind_index(k: WtKind) -> int {
    match k {
        WtKind::MotorFeedback => 0,
        WtKind::SystemSnapshot => 1,
        WtKind::TestProgress => 2,
        WtKind::SafetyEvent => 3,
        WtKind::MotionStatus => 4,
        WtKind::LogEvent => 5,
    }
}

impl WtKind {
    /// snake_case discriminator emitted as the `kind` field of the envelope.
    pub fn as_str(self) -> (r: &'static str)
        ensures
            r@ == wt_kind_label(self),
    {
        match self {
            WtKind::MotorFeedback => "motor_feedback",
            WtKind::SystemSnapshot => "system_snapshot",
            WtKind::TestProgress => "test_progress",
            WtKind::SafetyEvent => "safety_event",
            WtKind::MotionStatus => "motion_status",
            WtKind::LogEvent => "log_event",
        }
    }

    /// Reliability tier of the stream.
    pub fn transport(self) -> (r: WtTransport)
        ensures
            r == wt_kind_transport(self),
    {
        match self {
            WtKind::MotorFeedback => WtTransport::Datagram,
            WtKind::SystemSnapshot => WtTransport::Datagram,
            WtKind::TestProgress => WtTransport::Stream,
            WtKind::SafetyEvent => WtTransport::Stream,
            WtKind::MotionStatus => WtTransport::Datagram,
            WtKind::LogEvent => WtTransport::Stream,
        }
    }

    /// All variants in declaration order.
    pub fn all() -> (r: Vec<WtKind>)
        ensures
            r@ == wt_kind_order(),
    {
        let r = vec![
            WtKind::MotorFeedback,
            WtKind::SystemSnapshot,
            WtKind::TestProgress,
            WtKind::SafetyEvent,
            WtKind::MotionStatus,
            WtKind::LogEvent,
        ];
        assert(r@ =~= wt_kind_order());
        r
    }

    /// Position of this kind in declaration order.
    pub fn index(self) -> (r: usize)
        ensures
            r == wt_kind_index(self),
            r < 6,
    {
        match self {
            WtKind::MotorFeedback => 0,
            WtKind::SystemSnapshot => 1,
            WtKind::TestProgress => 2,
            WtKind::SafetyEvent => 3,
            WtKind::MotionStatus => 4,
            WtKind::LogEvent => 5,
        }
    }
}

/// Every stream kind appears exactly once in the declared order, at its index.
pub proof fn law_wt_kinds_enumerated(k: WtKind)
    ensures
        wt_kind_order().len() == 6,
        wt_kind_order()[wt_kind_index(k)] == k,
        0 <= wt_kind_index(k) < 6,
{
}

/// Distinct kinds have distinct wire labels.
pub proof fn law_wt_kind_labels_distinct(a: WtKind, b: WtKind)
    ensures
        wt_kind_label(a) == wt_kind_label(b) ==> a == b,
{
    reveal_strlit("motor_feedback");
    reveal_strlit("system_snapshot");
    reveal_strlit("test_progress");
    reveal_strlit("safety_event");
    reveal_strlit("motion_status");
    reveal_strlit("log_event");
    if a != b && wt_kind_label(a) == wt_kind_label(b) {
        let la = wt_kind_label(a);
        let lb = wt_kind_label(b);
        assert(la.len() == lb.len());
        assert(la[0] == lb[0]);
        assert(la[1] == lb[1]);
        assert(la[2] == lb[2]);
    }
}

/// Compile-time metadata about one registered WT stream.
#[derive(Debug, Clone, Copy)]
pub struct WtStreamMeta {
    pub kind: &'static str,
    pub transport: WtTransport,
}

/// Metadata of every registered stream, in declaration order.
pub fn wt_streams() -> (r: Vec<WtStreamMeta>)
    ensures
        r@.len() == 6,
        forall|i: int|
            0 <= i < 6 ==> (#[trigger] r@[i]).kind@ == wt_kind_label(wt_kind_order()[i])
                && r@[i].transport == wt_kind_transport(wt_kind_order()[i]),
{
    let kinds = WtKind::all();
    let mut r: Vec<WtStreamMeta> = Vec::new();
    let mut i: usize = 0;
    while i < kinds.len()
        invariant
            kinds@ == wt_kind_order(),
            i <= 6,
            r@.len() == i,
            forall|j: int|
                0 <= j < i ==> (#[trigger] r@[j]).kind@ == wt_kind_label(wt_kind_order()[j])
                    && r@[j].transport == wt_kind_transport(wt_kind_order()[j]),
        decreases 6 - i,
    {
        let k = kinds[i];
        r.push(WtStreamMeta { kind: k.as_str(), transport: k.transport() });
        i = i + 1;
    }
    r
}

/// A payload type that rides one WebTransport stream.
pub trait WtPayload {
    /// Stream kind this payload type rides.
    spec fn payload_kind() -> WtKind;

    /// Stream kind of this payload.
    fn wt_kind() -> (k: WtKind)
        ensures
            k == Self::payload_kind(),
    ;
}

impl WtPayload for MotorFeedback {
    open spec fn payload_kind() -> WtKind {
        WtKind::MotorFeedback
    }

    fn wt_kind() -> (k: WtKind) {
        WtKind::MotorFeedback
    }
}

impl WtPayload for SystemSnapshot {
    open spec fn payload_kind() -> WtKind {
        WtKind::SystemSnapshot
    }

    fn wt_kind() -> (k: WtKind) {
        WtKind::SystemSnapshot
    }
}

impl WtPayload for TestProgress {
    open spec fn payload_kind() -> WtKind {
        WtKind::TestProgress
    }

    fn wt_kind() -> (k: WtKind) {
        WtKind::TestProgress
    }
}

impl WtPayload for SafetyEvent {
    open spec fn payload_kind() -> WtKind {
        WtKind::SafetyEvent
    }

    fn wt_kind() -> (k: WtKind) {
        WtKind::SafetyEvent
    }
}

impl WtPayload for LogEntry {
    open spec fn payload_kind() -> WtKind {
        WtKind::LogEvent
    }

    fn wt_kind() -> (k: WtKind) {
        WtKind::LogEvent
    }
}

/// Wire envelope for every WebTransport frame.
#[derive(Debug)]
pub struct WtEnvelope<T> {
    /// Envelope schema version.
    pub v: u8,
    /// Stream kind (snake_case).
    pub kind: &'static str,
    /// Per-stream sequence number.
    pub seq: u64,
    /// Wallclock at envelope emission, ms since unix epoch.
    pub t_ms: i64,
    pub data: T,
}

impl<T> WtEnvelope<T> {
    /// Envelope for a payload of the given kind, stamped at `t_ms`.
    pub fn stamped(kind: WtKind, seq: u64, t_ms: i64, data: T) -> (r: WtEnvelope<T>)
        ensures
            r.v == WT_PROTOCOL_VERSION,
            r.kind@ == wt_kind_label(kind),
            r.seq == seq,
            r.t_ms == t_ms,
            r.data == data,
    {
        WtEnvelope { v: WT_PROTOCOL_VERSION, kind: kind.as_str(), seq, t_ms, data }
    }
}

impl<T: WtPayload> WtEnvelope<T> {
    /// Envelope stamped with the unix milliseconds of the clock reading
    /// `reading` (0 for a clock before the epoch).
    pub fn new_at(seq: u64, reading: Option<u128>, data: T) -> (r: WtEnvelope<T>)
        ensures
            r.v == WT_PROTOCOL_VERSION,
            r.kind@ == wt_kind_label(T::payload_kind()),
            r.seq == seq,
            r.t_ms == clock::unix_ms_of(reading),
            r.data == data,
    {
        let t_ms = clock::unix_ms_from_reading(reading);
        WtEnvelope::stamped(T::wt_kind(), seq, t_ms, data)
    }

    /// Fresh envelope stamped with the current wallclock: the system clock
    /// is read and the reading goes through [`Self::new_at`]. The reading
    /// depends on the clock, so of `t_ms` only `t_ms >= 0` is stated here.
    pub fn new(seq: u64, data: T) -> (r: WtEnvelope<T>)
        ensures
            r.v == WT_PROTOCOL_VERSION,
            r.kind@ == wt_kind_label(T::payload_kind()),
            r.seq == seq,
            r.t_ms >= 0,
            r.data == data,
    {
        WtEnvelope::new_at(seq, clock::millis_since_epoch(), data)
    }
}

} // verus!
