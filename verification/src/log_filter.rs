//! Parsing behind the Logs page: the tracing filter directive string and
//! the comma-separated `level` / `source` query parameters, plus the
//! paging rules of `GET /api/logs`.
use vstd::prelude::*;

use crate::text::{
    chars_of, find_char, lower_chars, lower_seq, slice_chars, split_chars, split_once_seq,
    split_seq, string_from_chars, trim_chars, trim_seq, views,
};
use crate::types::{
    level_from_lower, level_of_name, literal_eq, LogEntry, LogFilterDirective, LogFilterState,
    LogLevel, LogSource,
};

verus! {

/// Parsed directive: target (if any) and level.
pub type DirectiveView = (Option<Seq<char>>, LogLevel);

pub open spec fn directive_view(d: LogFilterDirective) -> DirectiveView {
    (
        match d.target {
            Some(t) => Some(t@),
            None => None,
        },
        d.level,
    )
}

/// Effect of one comma-separated piece of a filter string on the parse state
/// `(default level, directives)`: a bare level sets the default, a
/// `target=level` pair adds a directive, anything unparsable is ignored.
pub open spec fn directive_step(
    st: (LogLevel, Seq<DirectiveView>),
    piece: Seq<char>,
) -> (LogLevel, Seq<DirectiveView>) {
    let p = trim_seq(piece);
    if p.len() == 0 {
        st
    } else {
        match split_once_seq(p, '=') {
            None => match level_of_name(p) {
                Some(l) => (l, st.1),
                None => st,
            },
            Some((target, level_str)) => match level_of_name(trim_seq(level_str)) {
                Some(l) => (st.0, st.1.push((Some(trim_seq(target)), l))),
                None => st,
            },
        }
    }
}

/// Parse state after the pieces `ps`, starting from `(Info, [])`.
pub open spec fn directives_fold(ps: Seq<Seq<char>>) -> (LogLevel, Seq<DirectiveView>)
    decreases ps.len(),
{
    if ps.len() == 0 {
        (LogLevel::Info, Seq::empty())
    } else {
        directive_step(directives_fold(ps.drop_last()), ps.last())
    }
}

/// What a filter directive string means: default level and per-target directives.
pub open spec fn directives_of(raw: Seq<char>) -> (LogLevel, Seq<DirectiveView>) {
    directives_fold(split_seq(raw, ','))
}

/// Level named by some characters, ignoring ASCII case.
pub fn level_from_chars(s: &[char]) -> (r: Option<LogLevel>)
    ensures
        r == level_of_name(s@),
{
    let l = lower_chars(s);
    level_from_lower(l.as_slice())
}

fn apply_directive_piece(default: &mut LogLevel, dirs: &mut Vec<LogFilterDirective>, piece: &[char])
    ensures
        (*final(default), final(dirs)@.map_values(|d: LogFilterDirective| directive_view(d)))
            == directive_step(
            (*old(default), old(dirs)@.map_values(|d: LogFilterDirective| directive_view(d))),
            piece@,
        ),
{
    let p = trim_chars(piece);
    if p.len() == 0 {
        return;
    }
    match find_char(p.as_slice(), '=') {
        None => {
            match level_from_chars(p.as_slice()) {
                Some(l) => {
                    *default = l;
                },
                None => {},
            }
        },
        Some(k) => {
            let target = slice_chars(p.as_slice(), 0, k);
            let level_str = slice_chars(p.as_slice(), k + 1, p.len());
            let lt = trim_chars(level_str.as_slice());
            assert(target@ == p@.take(k as int));
            assert(level_str@ == p@.skip(k + 1));
            match level_from_chars(lt.as_slice()) {
                Some(l) => {
                    let t = trim_chars(target.as_slice());
                    let ghost before = dirs@;
                    dirs.push(LogFilterDirective { target: Some(string_from_chars(t.as_slice())), level: l });
                    assert(dirs@.map_values(|d: LogFilterDirective| directive_view(d)) =~= before.map_values(
                        |d: LogFilterDirective| directive_view(d),
                    ).push((Some(t@), l)));
                },
                None => {},
            }
        },
    }
}

/// Parse a filter directive string such as `info,rudydae=debug` into its
/// default level (initially `info`) and per-target directives, in order.
pub fn parse_directives(raw: &str) -> (r: (LogLevel, Vec<LogFilterDirective>))
    ensures
        r.0 == directives_of(raw@).0,
        r.1@.map_values(|d: LogFilterDirective| directive_view(d)) == directives_of(raw@).1,
{
    let chars = chars_of(raw);
    let pieces = split_chars(chars.as_slice(), ',');
    let mut default = LogLevel::Info;
    let mut dirs: Vec<LogFilterDirective> = Vec::new();
    let mut i: usize = 0;
    assert(dirs@.map_values(|d: LogFilterDirective| directive_view(d)) =~= Seq::<DirectiveView>::empty());
    while i < pieces.len()
        invariant
            i <= pieces@.len(),
            views(pieces@) == split_seq(raw@, ','),
            (default, dirs@.map_values(|d: LogFilterDirective| directive_view(d))) == directives_fold(
                views(pieces@).take(i as int),
            ),
        decreases pieces@.len() - i,
    {
        assert(views(pieces@).take(i + 1).drop_last() =~= views(pieces@).take(i as int));
        assert(views(pieces@).take(i + 1).last() == pieces@[i as int]@);
        apply_directive_piece(&mut default, &mut dirs, pieces[i].as_slice());
        i = i + 1;
    }
    assert(views(pieces@).take(pieces@.len() as int) =~= views(pieces@));
    (default, dirs)
}

/// Filter state as served to the SPA for the directive string `raw`.
pub fn snapshot_filter_with(raw: &str) -> (r: LogFilterState)
    ensures
        r.default == directives_of(raw@).0,
        r.directives@.map_values(|d: LogFilterDirective| directive_view(d)) == directives_of(raw@).1,
        r.raw@ == raw@,
{
    let (default, directives) = parse_directives(raw);
    LogFilterState { default, directives, raw: crate::text::copy_string(raw) }
}

/// Levels named in the comma-separated pieces `ps` (unknown names skipped).
pub open spec fn levels_fold(ps: Seq<Seq<char>>) -> Seq<LogLevel>
    decreases ps.len(),
{
    if ps.len() == 0 {
        Seq::empty()
    } else {
        match level_of_name(trim_seq(ps.last())) {
            Some(l) => levels_fold(ps.drop_last()).push(l),
            None => levels_fold(ps.drop_last()),
        }
    }
}

/// Levels named by a `level=warn,error` query value; missing means none.
pub open spec fn levels_of(raw: Option<Seq<char>>) -> Seq<LogLevel> {
    match raw {
        Some(s) => levels_fold(split_seq(s, ',')),
        None => Seq::empty(),
    }
}

/// Parse the `level` query parameter (comma-separated, case-insensitive).
pub fn parse_levels(raw: Option<&str>) -> (r: Vec<LogLevel>)
    ensures
        r@ == levels_of(match raw {
            Some(s) => Some(s@),
            None => None,
        }),
{
    let mut out: Vec<LogLevel> = Vec::new();
    match raw {
        None => {
            return out;
        },
        Some(s) => {
            let chars = chars_of(s);
            let pieces = split_chars(chars.as_slice(), ',');
            let mut i: usize = 0;
            while i < pieces.len()
                invariant
                    i <= pieces@.len(),
                    views(pieces@) == split_seq(s@, ','),
                    out@ == levels_fold(views(pieces@).take(i as int)),
                decreases pieces@.len() - i,
            {
                assert(views(pieces@).take(i + 1).drop_last() =~= views(pieces@).take(i as int));
                assert(views(pieces@).take(i + 1).last() == pieces@[i as int]@);
                let t = trim_chars(pieces[i].as_slice());
                match level_from_chars(t.as_slice()) {
                    Some(l) => {
                        out.push(l);
                    },
                    None => {},
                }
                i = i + 1;
            }
            assert(views(pieces@).take(pieces@.len() as int) =~= views(pieces@));
            out
        },
    }
}

/// Source named by some characters (`tracing` or `audit`, ignoring ASCII case).
pub open spec fn source_of_name(s: Seq<char>) -> Option<LogSource> {
    if lower_seq(s) == "tracing"@ {
        Some(LogSource::Tracing)
    } else if lower_seq(s) == "audit"@ {
        Some(LogSource::Audit)
    } else {
        None
    }
}

pub open spec fn sources_fold(ps: Seq<Seq<char>>) -> Seq<LogSource>
    decreases ps.len(),
{
    if ps.len() == 0 {
        Seq::empty()
    } else {
        match source_of_name(trim_seq(ps.last())) {
            Some(l) => sources_fold(ps.drop_last()).push(l),
            None => sources_fold(ps.drop_last()),
        }
    }
}

pub open spec fn sources_of(raw: Option<Seq<char>>) -> Seq<LogSource> {
    match raw {
        Some(s) => sources_fold(split_seq(s, ',')),
        None => Seq::empty(),
    }
}

/// Parse the `source` query parameter (`tracing`, `audit`, comma-separated).
pub fn parse_sources(raw: Option<&str>) -> (r: Vec<LogSource>)
    ensures
        r@ == sources_of(match raw {
            Some(s) => Some(s@),
            None => None,
        }),
{
    let mut out: Vec<LogSource> = Vec::new();
    match raw {
        None => {
            return out;
        },
        Some(s) => {
            let chars = chars_of(s);
            let pieces = split_chars(chars.as_slice(), ',');
            let mut i: usize = 0;
            while i < pieces.len()
                invariant
                    i <= pieces@.len(),
                    views(pieces@) == split_seq(s@, ','),
                    out@ == sources_fold(views(pieces@).take(i as int)),
                decreases pieces@.len() - i,
            {
                assert(views(pieces@).take(i + 1).drop_last() =~= views(pieces@).take(i as int));
                assert(views(pieces@).take(i + 1).last() == pieces@[i as int]@);
                let t = trim_chars(pieces[i].as_slice());
                let l = lower_chars(t.as_slice());
                if literal_eq(l.as_slice(), "tracing") {
                    out.push(LogSource::Tracing);
                } else if literal_eq(l.as_slice(), "audit") {
                    out.push(LogSource::Audit);
                }
                i = i + 1;
            }
            assert(views(pieces@).take(pieces@.len() as int) =~= views(pieces@));
            out
        },
    }
}

/// Page size of `GET /api/logs`: default 200, clamped to `1..=1000`.
pub fn page_limit(limit: Option<usize>) -> (n: usize)
    ensures
        n == match limit {
            None => 200,
            Some(l) => if l < 1 {
                1
            } else if l > 1000 {
                1000
            } else {
                l
            },
        },
        1 <= n <= 1000,
{
    let l = match limit {
        Some(l) => l,
        None => 200,
    };
    if l < 1 {
        1
    } else if l > 1000 {
        1000
    } else {
        l
    }
}

/// Cursor for the next (older) page: the last id of a full page, else none.
pub fn next_page_cursor(entries: &Vec<LogEntry>, limit: usize) -> (r: Option<i64>)
    ensures
        r == (if entries@.len() == limit && entries@.len() > 0 {
            Some(entries@.last().id)
        } else {
            None::<i64>
        }),
{
    if entries.len() == limit && entries.len() > 0 {
        Some(entries[entries.len() - 1].id)
    } else {
        None
    }
}

} // verus!
