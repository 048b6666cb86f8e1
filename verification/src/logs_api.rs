//! Rules of the Logs page endpoints: the store query a `GET /api/logs`
//! stands for, validation of a new runtime filter, and where the accepted
//! filter is persisted.
use vstd::prelude::*;

use crate::api_types::ListQuery;
use crate::config::{join_path, parent_of, path_join, path_parent};
use crate::log_filter::{levels_of, page_limit, parse_levels, parse_sources, sources_of};
use crate::log_store::LogFilter;
use crate::text::{chars_of, copy_string, string_from_chars, trim_chars, trim_seq};

verus! {

/// File next to the audit log holding the last accepted filter directive.
pub const LOG_FILTER_FILE_NAME: &'static str = "log_filter.txt";

#[verifier::external_type_specification]
#[verifier::external_body]
pub struct ExEnvFilter(tracing_subscriber::EnvFilter);

pub open spec fn opt_chars(o: Option<String>) -> Option<Seq<char>> {
    match o {
        Some(s) => Some(s@),
        None => None,
    }
}

/// The store query of `GET /api/logs`: parsed level and source lists,
/// substring and range filters passed through, page size defaulted and
/// clamped.
pub fn list_filter(q: ListQuery) -> (f: LogFilter)
    ensures
        f.levels@ == levels_of(opt_chars(q.level)),
        f.sources@ == sources_of(opt_chars(q.source)),
        f.q == q.q,
        f.target == q.target,
        f.since_ms == q.since_ms,
        f.before_id == q.before_id,
        f.limit == match q.limit {
            None => 200,
            Some(l) => if l < 1 {
                1
            } else if l > 1000 {
                1000
            } else {
                l
            },
        },
{
    let levels = match &q.level {
        Some(s) => parse_levels(Some(s.as_str())),
        None => parse_levels(None),
    };
    let sources = match &q.source {
        Some(s) => parse_sources(Some(s.as_str())),
        None => parse_sources(None),
    };
    let limit = page_limit(q.limit);
    LogFilter {
        levels,
        sources,
        q: q.q,
        target: q.target,
        since_ms: q.since_ms,
        before_id: q.before_id,
        limit,
    }
}

/// Does `tracing_subscriber::EnvFilter::try_new` accept `raw`?
pub uninterp spec fn env_filter_accepts(raw: Seq<char>) -> bool;

/// `tracing_subscriber::EnvFilter::try_new`: parse a comma-separated
/// directive list. Claimed: it succeeds exactly when the named predicate
/// holds of the text; the error message is not described.
#[verifier::external_body]
fn try_env_filter(raw: &str) -> (r: Result<tracing_subscriber::EnvFilter, String>)
    ensures
        r is Ok <==> env_filter_accepts(raw@),
{
    tracing_subscriber::EnvFilter::try_new(raw).map_err(|e| e.to_string())
}

/// Why a new runtime filter was refused.
#[derive(Debug)]
pub enum LevelError {
    /// Nothing but whitespace (`400 empty_filter`).
    EmptyFilter,
    /// The directive string does not parse (`400 invalid_filter`).
    InvalidFilter { detail: String },
}

/// Validate the body of `PUT /api/logs/level`: the trimmed directive
/// string, and the filter it parses to.
pub fn check_level(raw: &str) -> (r: Result<(String, tracing_subscriber::EnvFilter), LevelError>)
    ensures
        match r {
            Ok((s, _)) => s@ == trim_seq(raw@) && trim_seq(raw@).len() > 0 && env_filter_accepts(
                trim_seq(raw@),
            ),
            Err(LevelError::EmptyFilter) => trim_seq(raw@).len() == 0,
            Err(LevelError::InvalidFilter { .. }) => trim_seq(raw@).len() > 0
                && !env_filter_accepts(trim_seq(raw@)),
        },
{
    let trimmed = trim_chars(chars_of(raw).as_slice());
    if trimmed.len() == 0 {
        return Err(LevelError::EmptyFilter);
    }
    let text = string_from_chars(trimmed.as_slice());
    match try_env_filter(text.as_str()) {
        Ok(f) => Ok((text, f)),
        Err(detail) => Err(LevelError::InvalidFilter { detail }),
    }
}

/// Contents of the persisted filter file as a directive string: trimmed,
/// and absent when empty.
pub fn persisted_filter_text(contents: Option<String>) -> (r: Option<String>)
    ensures
        match contents {
            None => r is None,
            Some(c) => if trim_seq(c@).len() == 0 {
                r is None
            } else {
                r matches Some(s) && s@ == trim_seq(c@)
            },
        },
{
    match contents {
        None => None,
        Some(c) => {
            let t = trim_chars(chars_of(c.as_str()).as_slice());
            if t.len() == 0 {
                None
            } else {
                Some(string_from_chars(t.as_slice()))
            }
        },
    }
}

/// Where the accepted filter is persisted: next to the audit log, or in
/// the working directory when the audit log path has no parent.
pub fn filter_persist_path(audit_log: &str) -> (p: String)
    ensures
        p@ == match path_parent(audit_log@) {
            Some(parent) => path_join(parent, "log_filter.txt"@),
            None => "log_filter.txt"@,
        },
{
    match parent_of(audit_log) {
        Some(parent) => join_path(parent.as_str(), LOG_FILTER_FILE_NAME),
        None => copy_string(LOG_FILTER_FILE_NAME),
    }
}

} // verus!
