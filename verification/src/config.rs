//! Operator daemon configuration (`config/rudyd.toml`), its defaults, and
//! the path normalisation applied after loading.
//!
//! Paths are held as strings; the daemon only ever runs on Linux, so path
//! semantics here are Unix ones.
use vstd::prelude::*;

use crate::text::copy_string;
use crate::types::F32Bits;

verus! {

#[derive(Debug)]
pub struct Config {
    pub http: HttpConfig,
    pub webtransport: WebTransportConfig,
    pub paths: PathsConfig,
    pub can: CanConfig,
    pub telemetry: TelemetryConfig,
    pub safety: SafetyConfig,
    pub logs: LogsConfig,
}

/// REST + SPA listener (always plaintext HTTP).
#[derive(Debug)]
pub struct HttpConfig {
    pub bind: String,
}

/// WebTransport (HTTP/3) listener; terminates TLS itself.
#[derive(Debug)]
pub struct WebTransportConfig {
    pub bind: String,
    pub enabled: bool,
    /// PEM certificate; required when `enabled`.
    pub cert_path: Option<String>,
    /// PEM private key paired with `cert_path`.
    pub key_path: Option<String>,
}

#[derive(Debug)]
pub struct PathsConfig {
    pub actuator_spec: String,
    /// The live inventory, read and rewritten by the daemon.
    pub inventory: String,
    /// Read-only seed copied to `inventory` when that file is missing.
    pub inventory_seed: Option<String>,
    pub audit_log: String,
}

#[derive(Debug)]
pub struct CanConfig {
    pub mock: bool,
    pub buses: Vec<CanBusConfig>,
}

#[derive(Debug)]
pub struct CanBusConfig {
    pub iface: String,
    pub bitrate: u32,
    /// CPU for this bus's I/O worker; `None` auto-assigns from cores `1..N`.
    pub cpu_pin: Option<usize>,
}

#[derive(Debug)]
pub struct TelemetryConfig {
    pub poll_interval_ms: u64,
}

/// Safety knobs. Angles are radians, carried as their `f32` encoding.
#[derive(Debug)]
pub struct SafetyConfig {
    pub require_verified: bool,
    pub boot_max_step_rad: F32Bits,
    pub auto_recovery_max_rad: F32Bits,
    pub recovery_margin_rad: F32Bits,
    pub step_size_rad: F32Bits,
    pub tick_interval_ms: u32,
    pub tracking_error_max_rad: F32Bits,
    pub target_tolerance_rad: F32Bits,
    pub homer_timeout_ms: u32,
    pub auto_recovery_enabled: bool,
    /// Oldest cached telemetry the jog path and the boot orchestrator trust.
    pub max_feedback_age_ms: u64,
    pub commission_readback_tolerance_rad: F32Bits,
    /// Master switch of the boot orchestrator's auto-home.
    pub auto_home_on_boot: bool,
}

/// SQLite log store and runtime tracing-filter knobs.
#[derive(Debug)]
pub struct LogsConfig {
    pub db_path: String,
    pub retention_days: u32,
    /// Filter used when neither `RUST_LOG` nor a persisted filter is set.
    pub default_filter: String,
    pub batch_max_rows: usize,
    pub batch_flush_ms: u64,
    pub purge_interval_s: u64,
}

pub fn default_bitrate() -> (r: u32)
    ensures
        r == 1_000_000,
{
    1_000_000
}

pub fn default_poll_ms() -> (r: u64)
    ensures
        r == 100,
{
    100
}

pub fn default_true() -> (r: bool)
    ensures
        r,
{
    true
}

/// 0.087 rad (about 5 degrees).
pub fn default_boot_max_step_rad() -> (r: F32Bits)
    ensures
        r == F32Bits(0x3db2_2d0e),
{
    F32Bits(0x3db2_2d0e)
}

/// 1e-3 rad.
pub fn default_commission_readback_tolerance_rad() -> (r: F32Bits)
    ensures
        r == F32Bits(0x3a83_126f),
{
    F32Bits(0x3a83_126f)
}

/// pi / 2 rad.
pub fn default_auto_recovery_max_rad() -> (r: F32Bits)
    ensures
        r == F32Bits(0x3fc9_0fdb),
{
    F32Bits(0x3fc9_0fdb)
}

/// 0.087 rad.
pub fn default_recovery_margin_rad() -> (r: F32Bits)
    ensures
        r == F32Bits(0x3db2_2d0e),
{
    F32Bits(0x3db2_2d0e)
}

/// 0.02 rad.
pub fn default_step_size_rad() -> (r: F32Bits)
    ensures
        r == F32Bits(0x3ca3_d70a),
{
    F32Bits(0x3ca3_d70a)
}

pub fn default_tick_interval_ms() -> (r: u32)
    ensures
        r == 50,
{
    50
}

/// 0.05 rad.
pub fn default_tracking_error_max_rad() -> (r: F32Bits)
    ensures
        r == F32Bits(0x3d4c_cccd),
{
    F32Bits(0x3d4c_cccd)
}

/// 0.005 rad.
pub fn default_target_tolerance_rad() -> (r: F32Bits)
    ensures
        r == F32Bits(0x3ba3_d70a),
{
    F32Bits(0x3ba3_d70a)
}

pub fn default_homer_timeout_ms() -> (r: u32)
    ensures
        r == 30_000,
{
    30_000
}

pub fn default_max_feedback_age_ms() -> (r: u64)
    ensures
        r == 250,
{
    250
}

/// Relative on purpose: see [`Config::normalize_paths`].
pub fn default_logs_db_path() -> (r: String)
    ensures
        r@ == ".rudyd/logs.db"@,
{
    copy_string(".rudyd/logs.db")
}

pub fn default_logs_retention_days() -> (r: u32)
    ensures
        r == 7,
{
    7
}

pub fn default_logs_default_filter() -> (r: String)
    ensures
        r@ == "rudydae=info,tower_http=info"@,
{
    copy_string("rudydae=info,tower_http=info")
}

pub fn default_logs_batch_max_rows() -> (r: usize)
    ensures
        r == 1000,
{
    1000
}

pub fn default_logs_batch_flush_ms() -> (r: u64)
    ensures
        r == 250,
{
    250
}

pub fn default_logs_purge_interval_s() -> (r: u64)
    ensures
        r == 300,
{
    300
}

impl Default for LogsConfig {
    fn default() -> (r: LogsConfig)
        ensures
            r.db_path@ == ".rudyd/logs.db"@,
            r.retention_days == 7,
            r.default_filter@ == "rudydae=info,tower_http=info"@,
            r.batch_max_rows == 1000,
            r.batch_flush_ms == 250,
            r.purge_interval_s == 300,
    {
        LogsConfig {
            db_path: default_logs_db_path(),
            retention_days: default_logs_retention_days(),
            default_filter: default_logs_default_filter(),
            batch_max_rows: default_logs_batch_max_rows(),
            batch_flush_ms: default_logs_batch_flush_ms(),
            purge_interval_s: default_logs_purge_interval_s(),
        }
    }
}

/// Does the (Unix) path begin at the root?
pub open spec fn has_root(p: Seq<char>) -> bool {
    p.len() > 0 && p[0] == '/'
}

/// What `std::path::Path::parent` returns for `p`.
pub uninterp spec fn path_parent(p: Seq<char>) -> Option<Seq<char>>;

/// What `std::path::Path::file_name` returns for `p`.
pub uninterp spec fn path_file_name(p: Seq<char>) -> Option<Seq<char>>;

/// What `std::path::Path::join` returns for `base` and `p`.
pub uninterp spec fn path_join(base: Seq<char>, p: Seq<char>) -> Seq<char>;

fn path_has_root(p: &str) -> (b: bool)
    ensures
        b == has_root(p@),
{
    let cs = crate::text::chars_of(p);
    cs.len() > 0 && cs[0] == '/'
}

/// `std::path::Path::parent`: the path without its final component, if
/// there is one. Nothing is claimed of the result beyond its name.
#[verifier::external_body]
pub(crate) fn parent_of(p: &str) -> (r: Option<String>)
    ensures
        match r {
            Some(s) => path_parent(p@) == Some(s@),
            None => path_parent(p@) is None,
        },
{
    std::path::Path::new(p).parent().map(|q| q.to_string_lossy().into_owned())
}

/// `std::path::Path::file_name`: the final component, if it is a normal
/// file or directory name. Nothing is claimed beyond its name.
#[verifier::external_body]
fn file_name_of(p: &str) -> (r: Option<String>)
    ensures
        match r {
            Some(s) => path_file_name(p@) == Some(s@),
            None => path_file_name(p@) is None,
        },
{
    std::path::Path::new(p).file_name().map(|n| n.to_string_lossy().into_owned())
}

/// `std::path::Path::join`: `p` appended to `base` (or `p` itself when it
/// has a root). Nothing is claimed beyond its name.
#[verifier::external_body]
pub(crate) fn join_path(base: &str, p: &str) -> (r: String)
    ensures
        r@ == path_join(base@, p@),
{
    std::path::Path::new(base).join(p).to_string_lossy().into_owned()
}

/// The log database path after normalisation: a relative `db_path` is
/// re-homed next to a rooted audit log (keeping its file name, `logs.db`
/// when it has none); everything else is left alone.
pub open spec fn normalized_db_path(db_path: Seq<char>, audit_log: Seq<char>) -> Seq<char> {
    if !has_root(db_path) && has_root(audit_log) {
        match path_parent(audit_log) {
            Some(parent) => path_join(
                parent,
                match path_file_name(db_path) {
                    Some(n) => n,
                    None => "logs.db"@,
                },
            ),
            None => db_path,
        }
    } else {
        db_path
    }
}

impl Config {
    /// Re-home the log database next to a rooted audit log when its own
    /// path is relative, so a relative default never resolves under a
    /// read-only working directory. Only `logs.db_path` changes.
    pub fn normalize_paths(&mut self)
        ensures
            final(self).logs.db_path@ == normalized_db_path(
                old(self).logs.db_path@,
                old(self).paths.audit_log@,
            ),
            final(self).logs.retention_days == old(self).logs.retention_days,
            final(self).logs.default_filter == old(self).logs.default_filter,
            final(self).logs.batch_max_rows == old(self).logs.batch_max_rows,
            final(self).logs.batch_flush_ms == old(self).logs.batch_flush_ms,
            final(self).logs.purge_interval_s == old(self).logs.purge_interval_s,
            final(self).paths == old(self).paths,
            final(self).http == old(self).http,
            final(self).webtransport == old(self).webtransport,
            final(self).can == old(self).can,
            final(self).telemetry == old(self).telemetry,
            final(self).safety == old(self).safety,
    {
        if !path_has_root(self.logs.db_path.as_str()) && path_has_root(
            self.paths.audit_log.as_str(),
        ) {
            match parent_of(self.paths.audit_log.as_str()) {
                Some(parent) => {
                    let name = match file_name_of(self.logs.db_path.as_str()) {
                        Some(n) => n,
                        None => copy_string("logs.db"),
                    };
                    self.logs.db_path = join_path(parent.as_str(), name.as_str());
                },
                None => {},
            }
        }
    }
}

} // verus!
