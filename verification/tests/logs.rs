use rudydae::api_types::ListQuery;
use rudydae::log_filter::{next_page_cursor, page_limit, parse_directives, parse_levels, parse_sources, snapshot_filter_with};
use rudydae::log_store::{
    batch_flush_wait_ms, batch_rows, drop_oldest_over_cap, purge_interval_secs, query_sql,
    retention_cutoff_ms, vacuum_due, LogFilter, SqlParam,
};
use rudydae::logs_api::{check_level, filter_persist_path, list_filter, persisted_filter_text, LevelError};
use rudydae::types::{LogEntry, LogLevel, LogSource};

const PREFIX: &str = "SELECT id, t_ms, level, source, target, message, fields, span,
                action, audit_target, result, session_id, remote
         FROM logs WHERE 1=1";

fn as_int(p: &SqlParam) -> Option<i64> {
    match p {
        SqlParam::Int(i) => Some(*i),
        _ => None,
    }
}

fn text(p: &SqlParam) -> Option<&str> {
    match p {
        SqlParam::Text(s) => Some(s.as_str()),
        _ => None,
    }
}

#[test]
fn query_without_filters_is_newest_first_with_clamped_limit() {
    let f = LogFilter::new();
    let (sql, params) = query_sql(&f);
    assert_eq!(sql, format!("{PREFIX} ORDER BY id DESC LIMIT 1"));
    assert!(params.is_empty());
}

#[test]
fn query_numbers_placeholders_in_bind_order() {
    let mut f = LogFilter::new();
    f.levels = vec![LogLevel::Warn, LogLevel::Error];
    f.sources = vec![LogSource::Audit];
    f.q = Some("boom".into());
    f.target = Some(String::new());
    f.since_ms = Some(1000);
    f.before_id = Some(55);
    f.limit = 5000;
    let (sql, params) = query_sql(&f);
    assert_eq!(
        sql,
        format!(
            "{PREFIX} AND level IN (?1,?2) AND source IN (?3) AND message LIKE ?4 AND t_ms >= ?5 AND id < ?6 ORDER BY id DESC LIMIT 1000"
        )
    );
    assert_eq!(params.len(), 6);
    assert_eq!(as_int(&params[0]), Some(3));
    assert_eq!(as_int(&params[1]), Some(4));
    assert_eq!(as_int(&params[2]), Some(LogSource::Audit.as_i64()));
    assert_eq!(text(&params[3]), Some("%boom%"));
    assert_eq!(as_int(&params[4]), Some(1000));
    assert_eq!(as_int(&params[5]), Some(55));
}

#[test]
fn query_target_filter_after_message() {
    let mut f = LogFilter::new();
    f.target = Some("rudydae::can".into());
    f.limit = 200;
    let (sql, params) = query_sql(&f);
    assert_eq!(sql, format!("{PREFIX} AND target LIKE ?1 ORDER BY id DESC LIMIT 200"));
    assert_eq!(text(&params[0]), Some("%rudydae::can%"));
}

#[test]
fn overflowing_batch_drops_oldest() {
    let mut buf = vec![1, 2, 3, 4, 5];
    assert_eq!(drop_oldest_over_cap(&mut buf, 3), 2);
    assert_eq!(buf, vec![3, 4, 5]);
    assert_eq!(drop_oldest_over_cap(&mut buf, 3), 0);
    assert_eq!(buf, vec![3, 4, 5]);
}

#[test]
fn writer_and_purger_cadence_floors() {
    assert_eq!(batch_rows(0), 1);
    assert_eq!(batch_rows(1000), 1000);
    assert_eq!(batch_flush_wait_ms(0), 1);
    assert_eq!(batch_flush_wait_ms(250), 250);
    assert_eq!(purge_interval_secs(1), 5);
    assert_eq!(purge_interval_secs(300), 300);
    assert_eq!(retention_cutoff_ms(1_000_000_000, 7), 1_000_000_000 - 7 * 86_400_000);
    assert!(vacuum_due(86_400_001));
    assert!(!vacuum_due(86_400_000));
}

#[test]
fn directives_parse_default_and_targets() {
    let (default, dirs) = parse_directives("warn, rudydae=debug,bad=nope,  ,tower_http = info");
    assert_eq!(default, LogLevel::Warn);
    assert_eq!(dirs.len(), 2);
    assert_eq!(dirs[0].target.as_deref(), Some("rudydae"));
    assert_eq!(dirs[0].level, LogLevel::Debug);
    assert_eq!(dirs[1].target.as_deref(), Some("tower_http"));
    assert_eq!(dirs[1].level, LogLevel::Info);
    let st = snapshot_filter_with("rudydae=info");
    assert_eq!(st.default, LogLevel::Info);
    assert_eq!(st.raw, "rudydae=info");
}

#[test]
fn level_and_source_lists() {
    assert_eq!(parse_levels(Some("warn, ERROR,bogus")), vec![LogLevel::Warn, LogLevel::Error]);
    assert!(parse_levels(None).is_empty());
    assert_eq!(parse_sources(Some("Audit,tracing,x")), vec![LogSource::Audit, LogSource::Tracing]);
    assert!(parse_sources(None).is_empty());
}

#[test]
fn page_limit_and_cursor() {
    assert_eq!(page_limit(None), 200);
    assert_eq!(page_limit(Some(0)), 1);
    assert_eq!(page_limit(Some(5000)), 1000);
    let entry = |id: i64| LogEntry {
        id,
        t_ms: 0,
        level: LogLevel::Info,
        source: LogSource::Tracing,
        target: String::new(),
        message: String::new(),
        fields: "{}".into(),
        span: None,
        action: None,
        audit_target: None,
        result: None,
        session_id: None,
        remote: None,
    };
    let full = vec![entry(9), entry(8)];
    assert_eq!(next_page_cursor(&full, 2), Some(8));
    assert_eq!(next_page_cursor(&full, 3), None);
}

#[test]
fn list_query_becomes_store_filter() {
    let q = ListQuery {
        level: Some("warn,error".into()),
        source: None,
        q: Some("x".into()),
        target: None,
        since_ms: Some(5),
        before_id: None,
        limit: None,
    };
    let f = list_filter(q);
    assert_eq!(f.levels, vec![LogLevel::Warn, LogLevel::Error]);
    assert!(f.sources.is_empty());
    assert_eq!(f.q.as_deref(), Some("x"));
    assert_eq!(f.since_ms, Some(5));
    assert_eq!(f.limit, 200);
}

#[test]
fn new_filter_is_trimmed_and_validated() {
    match check_level("  rudydae=debug  ") {
        Ok((raw, _filter)) => assert_eq!(raw, "rudydae=debug"),
        Err(e) => panic!("unexpected {e:?}"),
    }
    assert!(matches!(check_level("   "), Err(LevelError::EmptyFilter)));
    assert!(matches!(check_level("rudydae=notalevel"), Err(LevelError::InvalidFilter { .. })));
}

#[test]
fn persisted_filter_text_and_path() {
    assert_eq!(persisted_filter_text(Some("  warn \n".into())).as_deref(), Some("warn"));
    assert_eq!(persisted_filter_text(Some(" \n".into())), None);
    assert_eq!(persisted_filter_text(None), None);
    assert_eq!(filter_persist_path("/var/lib/rudy/audit.jsonl"), "/var/lib/rudy/log_filter.txt");
    assert_eq!(filter_persist_path("audit.jsonl"), "log_filter.txt");
}

#[test]
fn log_level_and_source_codes_round_trip() {
    for l in [LogLevel::Trace, LogLevel::Debug, LogLevel::Info, LogLevel::Warn, LogLevel::Error] {
        assert_eq!(LogLevel::from_i64(l.as_i64()), l);
    }
    assert_eq!(LogLevel::from_i64(99), LogLevel::Info);
    for s in [LogSource::Tracing, LogSource::Audit] {
        assert_eq!(LogSource::from_i64(s.as_i64()), s);
    }
    assert_eq!(LogLevel::from_str_loose("WARNING"), Some(LogLevel::Warn));
    assert_eq!(LogLevel::from_str_loose("verbose"), None);
}
