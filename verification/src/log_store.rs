//! Query construction and batching rules of the persistent log store.
//!
//! The SQLite connection lives outside the library; it runs the statement
//! built by [`query_sql`] with the bound parameters it returns, and applies
//! [`drop_oldest_over_cap`] to each write batch.
use vstd::prelude::*;

use crate::text::{chars_of, string_from_chars};
use crate::types::{level_code, source_code, LogLevel, LogSource};

verus! {

/// Soft cap on the in-memory queue between producers and the writer.
pub const QUEUE_SOFT_CAP: usize = 50000;

/// Hard ceiling on the rows one query returns.
pub const MAX_QUERY_ROWS: usize = 1000;

/// Filter parameters for a log query. Empty / `None` fields are "no filter".
#[derive(Debug)]
pub struct LogFilter {
    /// Allowed levels. Empty means all.
    pub levels: Vec<LogLevel>,
    /// Allowed sources. Empty means all.
    pub sources: Vec<LogSource>,
    /// Substring matched against `message`.
    pub q: Option<String>,
    /// Substring matched against `target`.
    pub target: Option<String>,
    /// Inclusive lower bound on `t_ms`.
    pub since_ms: Option<i64>,
    /// Keyset cursor: rows with `id < before_id`.
    pub before_id: Option<i64>,
    /// Row cap; the store also enforces a ceiling of 1000.
    pub limit: usize,
}

impl LogFilter {
    /// No filtering; `limit` zero (the store raises it to one row).
    pub fn new() -> (f: LogFilter)
        ensures
            f.levels@.len() == 0,
            f.sources@.len() == 0,
            f.q is None,
            f.target is None,
            f.since_ms is None,
            f.before_id is None,
            f.limit == 0,
    {
        LogFilter {
            levels: Vec::new(),
            sources: Vec::new(),
            q: None,
            target: None,
            since_ms: None,
            before_id: None,
            limit: 0,
        }
    }
}

/// A bound query parameter.
#[derive(Debug)]
pub enum SqlParam {
    Int(i64),
    Text(String),
}

/// Parameter as a spec value.
pub enum ParamView {
    Int(i64),
    Text(Seq<char>),
}

pub open spec fn param_view(p: SqlParam) -> ParamView {
    match p {
        SqlParam::Int(i) => ParamView::Int(i),
        SqlParam::Text(s) => ParamView::Text(s@),
    }
}

pub open spec fn digit_char(d: nat) -> char {
    (48 + d) as char
}

/// Decimal representation of `n`, without leading zeros.
pub open spec fn decimal(n: nat) -> Seq<char>
    decreases n,
{
    if n < 10 {
        seq![digit_char(n)]
    } else {
        decimal(n / 10).push(digit_char(n % 10))
    }
}

/// `?a,?a+1,...,?a+k-1`: positional placeholders starting at `a`.
pub open spec fn placeholders(a: nat, k: nat) -> Seq<char>
    decreases k,
{
    if k == 0 {
        Seq::empty()
    } else if k == 1 {
        seq!['?'] + decimal(a)
    } else {
        placeholders(a, (k - 1) as nat) + seq![','] + seq!['?'] + decimal((a + k - 1) as nat)
    }
}

/// Column list and base predicate of every log query.
pub open spec fn select_prefix() -> Seq<char> {
    "SELECT id, t_ms, level, source, target, message, fields, span,
                action, audit_target, result, session_id, remote
         FROM logs WHERE 1=1"@
}

/// A substring filter is active when it is present and non-empty.
pub open spec fn active_text(o: Option<Seq<char>>) -> bool {
    o matches Some(s) && s.len() > 0
}

pub open spec fn opt_view(o: Option<String>) -> Option<Seq<char>> {
    match o {
        Some(s) => Some(s@),
        None => None,
    }
}

/// Row cap actually used: `limit` clamped to `1..=1000`.
pub open spec fn clamp_limit(l: usize) -> nat {
    if l < 1 {
        1
    } else if l > 1000 {
        1000
    } else {
        l as nat
    }
}

/// ` AND <col> IN (?a,...)` for `k` values numbered from `a`; nothing when
/// the set is empty.
pub open spec fn in_clause(head: Seq<char>, a: nat, k: nat) -> Seq<char> {
    if k > 0 {
        head + placeholders(a, k) + ")"@
    } else {
        Seq::empty()
    }
}

/// A single-placeholder predicate numbered `n`, present only when `active`.
pub open spec fn opt_clause(head: Seq<char>, active: bool, n: nat) -> Seq<char> {
    if active {
        head + decimal(n)
    } else {
        Seq::empty()
    }
}

/// SQL text of the query for a filter (placeholders numbered from 1 in
/// the order the parameters are bound), newest rows first.
pub open spec fn query_sql_spec(f: LogFilter) -> Seq<char> {
    let nl = f.levels@.len();
    let ns = f.sources@.len();
    let q = active_text(opt_view(f.q));
    let t = active_text(opt_view(f.target));
    let s = f.since_ms is Some;
    let b = f.before_id is Some;
    let c2 = nl + ns;
    let c3 = c2 + (if q { 1nat } else { 0nat });
    let c4 = c3 + (if t { 1nat } else { 0nat });
    let c5 = c4 + (if s { 1nat } else { 0nat });
    select_prefix() + in_clause(" AND level IN ("@, 1, nl) + in_clause(
        " AND source IN ("@,
        nl + 1,
        ns,
    ) + opt_clause(" AND message LIKE ?"@, q, c2 + 1) + opt_clause(" AND target LIKE ?"@, t, c3 + 1)
        + opt_clause(" AND t_ms >= ?"@, s, c4 + 1) + opt_clause(" AND id < ?"@, b, c5 + 1)
        + " ORDER BY id DESC LIMIT "@ + decimal(clamp_limit(f.limit))
}

/// `%s%`: a LIKE pattern matching any text containing `s`.
pub open spec fn like_pattern(s: Seq<char>) -> Seq<char> {
    seq!['%'] + s + seq!['%']
}

/// Bound parameters as spec values.
pub open spec fn param_views(s: Seq<SqlParam>) -> Seq<ParamView> {
    s.map_values(|p: SqlParam| param_view(p))
}

pub open spec fn level_params(ls: Seq<LogLevel>) -> Seq<ParamView> {
    ls.map_values(|l: LogLevel| ParamView::Int(level_code(l)))
}

pub open spec fn source_params(ss: Seq<LogSource>) -> Seq<ParamView> {
    ss.map_values(|s: LogSource| ParamView::Int(source_code(s)))
}

/// The LIKE pattern bound for an active substring filter.
pub open spec fn text_param(o: Option<Seq<char>>) -> Seq<ParamView> {
    if active_text(o) {
        seq![ParamView::Text(like_pattern(o.unwrap()))]
    } else {
        Seq::empty()
    }
}

pub open spec fn int_param(o: Option<i64>) -> Seq<ParamView> {
    match o {
        Some(v) => seq![ParamView::Int(v)],
        None => Seq::empty(),
    }
}

/// Parameters bound to the query, in placeholder order.
pub open spec fn query_params_spec(f: LogFilter) -> Seq<ParamView> {
    level_params(f.levels@) + source_params(f.sources@) + text_param(opt_view(f.q)) + text_param(
        opt_view(f.target),
    ) + int_param(f.since_ms) + int_param(f.before_id)
}

/// How many positional placeholders `query_sql_spec` numbers: one per
/// level, one per source, and one per active optional predicate.
pub open spec fn placeholder_count(f: LogFilter) -> nat {
    f.levels@.len() + f.sources@.len() + (if active_text(opt_view(f.q)) { 1nat } else { 0nat }) + (
    if active_text(opt_view(f.target)) { 1nat } else { 0nat }) + (if f.since_ms is Some { 1nat } else { 0nat }) + (
    if f.before_id is Some { 1nat } else { 0nat })
}

/// Every placeholder of a log query has exactly one bound parameter: the
/// placeholders run from `?1` to `?n` and `n` parameters are bound.
pub proof fn law_every_placeholder_bound(f: LogFilter)
    ensures
        query_params_spec(f).len() == placeholder_count(f),
{
}

/// Decimal digits of `n`.
pub fn decimal_chars(n: u64) -> (r: Vec<char>)
    ensures
        r@ == decimal(n as nat),
    decreases n,
{
    if n < 10 {
        let c = digit(n);
        let mut r: Vec<char> = Vec::new();
        r.push(c);
        assert(r@ =~= seq![digit_char(n as nat)]);
        r
    } else {
        let mut r = decimal_chars(n / 10);
        r.push(digit(n % 10));
        r
    }
}

fn digit(d: u64) -> (c: char)
    requires
        d < 10,
    ensures
        c == digit_char(d as nat),
{
    let b: u8 = (48 + d) as u8;
    b as char
}

/// Append the characters of `s`.
pub fn push_str(v: &mut Vec<char>, s: &str)
    ensures
        final(v)@ == old(v)@ + s@,
{
    let cs = chars_of(s);
    push_chars(v, cs.as_slice());
}

/// Append characters.
pub fn push_chars(v: &mut Vec<char>, s: &[char])
    ensures
        final(v)@ == old(v)@ + s@,
{
    let ghost start = v@;
    let mut i: usize = 0;
    while i < s.len()
        invariant
            i <= s@.len(),
            v@ == start + s@.take(i as int),
        decreases s@.len() - i,
    {
        v.push(s[i]);
        assert(s@.take(i + 1) =~= s@.take(i as int).push(s@[i as int]));
        i = i + 1;
    }
    assert(s@.take(s@.len() as int) =~= s@);
}

/// Append `?a,?a+1,...` for `k` parameters starting at number `a`.
fn push_placeholders(v: &mut Vec<char>, a: u64, k: u64)
    requires
        a + k <= u64::MAX,
    ensures
        final(v)@ == old(v)@ + placeholders(a as nat, k as nat),
{
    let ghost start = v@;
    let mut j: u64 = 0;
    while j < k
        invariant
            j <= k,
            a + k <= u64::MAX,
            v@ == start + placeholders(a as nat, j as nat),
        decreases k - j,
    {
        if j > 0 {
            v.push(',');
        }
        v.push('?');
        let d = decimal_chars(a + j);
        push_chars(v, d.as_slice());
        proof {
            if j == 0 {
                assert(placeholders(a as nat, 1) == seq!['?'] + decimal(a as nat));
            } else {
                assert(placeholders(a as nat, (j + 1) as nat) == placeholders(a as nat, j as nat)
                    + seq![','] + seq!['?'] + decimal((a + j) as nat));
            }
        }
        assert(v@ =~= start + placeholders(a as nat, (j + 1) as nat));
        j = j + 1;
    }
}

fn has_text(o: &Option<String>) -> (b: bool)
    ensures
        b == active_text(opt_view(*o)),
{
    match o {
        Some(s) => !s.as_str().is_empty(),
        None => false,
    }
}

fn like_of(s: &String) -> (r: String)
    ensures
        r@ == like_pattern(s@),
{
    let mut v: Vec<char> = Vec::new();
    v.push('%');
    push_str(&mut v, s.as_str());
    v.push('%');
    assert(v@ =~= like_pattern(s@));
    string_from_chars(v.as_slice())
}

fn push_in_clause(sql: &mut Vec<char>, head: &str, a: u64, k: usize)
    requires
        a + k <= u64::MAX,
    ensures
        final(sql)@ == old(sql)@ + in_clause(head@, a as nat, k as nat),
{
    if k > 0 {
        let ghost s0 = sql@;
        push_str(sql, head);
        push_placeholders(sql, a, k as u64);
        push_str(sql, ")");
        assert(sql@ =~= s0 + in_clause(head@, a as nat, k as nat));
    } else {
        assert(sql@ =~= old(sql)@ + in_clause(head@, a as nat, k as nat));
    }
}

fn push_level_params(params: &mut Vec<SqlParam>, ls: &Vec<LogLevel>)
    ensures
        param_views(final(params)@) == param_views(old(params)@) + level_params(ls@),
{
    let ghost p0 = param_views(params@);
    let mut i: usize = 0;
    while i < ls.len()
        invariant
            i <= ls@.len(),
            param_views(params@) == p0 + level_params(ls@.take(i as int)),
        decreases ls@.len() - i,
    {
        let ghost before = params@;
        params.push(SqlParam::Int(ls[i].as_i64()));
        assert(ls@.take(i + 1) =~= ls@.take(i as int).push(ls@[i as int]));
        assert(param_views(params@) =~= param_views(before).push(
            ParamView::Int(level_code(ls@[i as int])),
        ));
        assert(level_params(ls@.take(i + 1)) =~= level_params(ls@.take(i as int)).push(
            ParamView::Int(level_code(ls@[i as int])),
        ));
        i = i + 1;
    }
    assert(ls@.take(ls@.len() as int) =~= ls@);
}

fn push_source_params(params: &mut Vec<SqlParam>, ss: &Vec<LogSource>)
    ensures
        param_views(final(params)@) == param_views(old(params)@) + source_params(ss@),
{
    let ghost p0 = param_views(params@);
    let mut i: usize = 0;
    while i < ss.len()
        invariant
            i <= ss@.len(),
            param_views(params@) == p0 + source_params(ss@.take(i as int)),
        decreases ss@.len() - i,
    {
        let ghost before = params@;
        params.push(SqlParam::Int(ss[i].as_i64()));
        assert(ss@.take(i + 1) =~= ss@.take(i as int).push(ss@[i as int]));
        assert(param_views(params@) =~= param_views(before).push(
            ParamView::Int(source_code(ss@[i as int])),
        ));
        assert(source_params(ss@.take(i + 1)) =~= source_params(ss@.take(i as int)).push(
            ParamView::Int(source_code(ss@[i as int])),
        ));
        i = i + 1;
    }
    assert(ss@.take(ss@.len() as int) =~= ss@);
}

/// Substring filter: ` AND <col> LIKE ?n` with `%text%` bound, when the
/// text is present and non-empty. Returns the updated parameter count.
fn push_text_filter(
    sql: &mut Vec<char>,
    params: &mut Vec<SqlParam>,
    head: &str,
    o: &Option<String>,
    count: u64,
) -> (c: u64)
    requires
        count < u64::MAX,
    ensures
        final(sql)@ == old(sql)@ + opt_clause(head@, active_text(opt_view(*o)), (count + 1) as nat),
        param_views(final(params)@) == param_views(old(params)@) + text_param(opt_view(*o)),
        c == count + (if active_text(opt_view(*o)) { 1int } else { 0int }),
{
    let ghost s0 = sql@;
    let ghost p0 = params@;
    if has_text(o) {
        push_str(sql, head);
        let d = decimal_chars(count + 1);
        push_chars(sql, d.as_slice());
        params.push(SqlParam::Text(like_of(o.as_ref().unwrap())));
        assert(param_views(params@) =~= param_views(p0) + text_param(opt_view(*o)));
        assert(sql@ =~= s0 + opt_clause(head@, true, (count + 1) as nat));
        count + 1
    } else {
        assert(param_views(params@) =~= param_views(p0) + text_param(opt_view(*o)));
        assert(sql@ =~= s0 + opt_clause(head@, false, (count + 1) as nat));
        count
    }
}

/// Integer filter: ` AND <predicate> ?n` with the value bound, when set.
fn push_int_filter(
    sql: &mut Vec<char>,
    params: &mut Vec<SqlParam>,
    head: &str,
    o: Option<i64>,
    count: u64,
) -> (c: u64)
    requires
        count < u64::MAX,
    ensures
        final(sql)@ == old(sql)@ + opt_clause(head@, o is Some, (count + 1) as nat),
        param_views(final(params)@) == param_views(old(params)@) + int_param(o),
        c == count + (if o is Some { 1int } else { 0int }),
{
    let ghost s0 = sql@;
    let ghost p0 = params@;
    match o {
        Some(v) => {
            push_str(sql, head);
            let d = decimal_chars(count + 1);
            push_chars(sql, d.as_slice());
            params.push(SqlParam::Int(v));
            assert(param_views(params@) =~= param_views(p0) + int_param(o));
            assert(sql@ =~= s0 + opt_clause(head@, true, (count + 1) as nat));
            count + 1
        },
        None => {
            assert(param_views(params@) =~= param_views(p0) + int_param(o));
            assert(sql@ =~= s0 + opt_clause(head@, false, (count + 1) as nat));
            count
        },
    }
}

/// Build the SQL statement and its bound parameters for a log query:
/// optional level / source sets, substring filters on message and target,
/// a lower time bound and a keyset cursor, newest first, at most
/// `limit` (clamped to `1..=1000`) rows.
pub fn query_sql(f: &LogFilter) -> (r: (String, Vec<SqlParam>))
    requires
        f.levels@.len() + f.sources@.len() + 4 <= u64::MAX,
    ensures
        r.0@ == query_sql_spec(*f),
        param_views(r.1@) == query_params_spec(*f),
{
    let mut sql: Vec<char> = Vec::new();
    let mut params: Vec<SqlParam> = Vec::new();
    push_str(
        &mut sql,
        "SELECT id, t_ms, level, source, target, message, fields, span,
                action, audit_target, result, session_id, remote
         FROM logs WHERE 1=1",
    );
    assert(sql@ =~= select_prefix());
    let nl = f.levels.len();
    let ns = f.sources.len();
    push_in_clause(&mut sql, " AND level IN (", 1, nl);
    push_level_params(&mut params, &f.levels);
    push_in_clause(&mut sql, " AND source IN (", (nl as u64) + 1, ns);
    push_source_params(&mut params, &f.sources);
    let count: u64 = (nl as u64) + (ns as u64);
    let count = push_text_filter(&mut sql, &mut params, " AND message LIKE ?", &f.q, count);
    let count = push_text_filter(&mut sql, &mut params, " AND target LIKE ?", &f.target, count);
    let count = push_int_filter(&mut sql, &mut params, " AND t_ms >= ?", f.since_ms, count);
    let _count = push_int_filter(&mut sql, &mut params, " AND id < ?", f.before_id, count);
    let limit: u64 = if f.limit < 1 {
        1
    } else if f.limit > 1000 {
        1000
    } else {
        f.limit as u64
    };
    push_str(&mut sql, " ORDER BY id DESC LIMIT ");
    let d = decimal_chars(limit);
    push_chars(&mut sql, d.as_slice());
    proof {
        assert(param_views(Seq::<SqlParam>::empty()) =~= Seq::<ParamView>::empty());
        assert(Seq::<ParamView>::empty() + level_params(f.levels@) =~= level_params(f.levels@));
    }
    (string_from_chars(sql.as_slice()), params)
}

/// Drop the oldest entries of a write batch beyond `cap`; returns how many
/// were dropped.
pub fn drop_oldest_over_cap<T>(buf: &mut Vec<T>, cap: usize) -> (dropped: usize)
    ensures
        old(buf)@.len() > cap ==> dropped == old(buf)@.len() - cap && final(buf)@ == old(buf)@.skip(
            dropped as int,
        ),
        old(buf)@.len() <= cap ==> dropped == 0 && final(buf)@ == old(buf)@,
{
    if buf.len() > cap {
        let excess = buf.len() - cap;
        let mut tail = buf.split_off(excess);
        std::mem::swap(buf, &mut tail);
        excess
    } else {
        0
    }
}

/// Rows per write transaction (at least one).
pub fn batch_rows(batch_max_rows: usize) -> (n: usize)
    ensures
        n == if batch_max_rows < 1 {
            1
        } else {
            batch_max_rows
        },
{
    if batch_max_rows < 1 {
        1
    } else {
        batch_max_rows
    }
}

/// Wait before flushing a partial batch, in ms (at least one).
pub fn batch_flush_wait_ms(batch_flush_ms: u64) -> (n: u64)
    ensures
        n == if batch_flush_ms < 1 {
            1
        } else {
            batch_flush_ms
        },
{
    if batch_flush_ms < 1 {
        1
    } else {
        batch_flush_ms
    }
}

/// Cadence of the retention purger, in seconds (at least five).
pub fn purge_interval_secs(purge_interval_s: u64) -> (n: u64)
    ensures
        n == if purge_interval_s < 5 {
            5
        } else {
            purge_interval_s
        },
{
    if purge_interval_s < 5 {
        5
    } else {
        purge_interval_s
    }
}

/// Milliseconds in a day.
pub const DAY_MS: i64 = 86_400_000;

/// Rows older than this instant are purged.
pub fn retention_cutoff_ms(now_ms: i64, retention_days: u32) -> (c: i64)
    requires
        now_ms >= i64::MIN + 86_400_000 * 0xFFFF_FFFF,
    ensures
        c == now_ms - (retention_days as int) * 86_400_000,
{
    now_ms - (retention_days as i64) * DAY_MS
}

/// Is a full VACUUM due, given the ms since the last one?
pub fn vacuum_due(ms_since_last: u64) -> (b: bool)
    ensures
        b == (ms_since_last > 86_400_000),
{
    ms_since_last > 86_400_000
}

} // verus!
