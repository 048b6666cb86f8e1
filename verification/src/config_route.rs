//! `GET /api/config`: what the SPA needs to bootstrap, including the
//! WebTransport URL it should open.
use vstd::prelude::*;

use crate::config::Config;
use crate::text::{chars_of, copy_string, string_from_chars};
use crate::types::{ServerConfig, ServerFeatures, WebTransportAdvert};

verus! {

/// Index of the last `c` in `s`, if any.
pub open spec fn last_index_of(s: Seq<char>, c: char) -> Option<int>
    decreases s.len(),
{
    if s.len() == 0 {
        None
    } else if s.last() == c {
        Some(s.len() - 1)
    } else {
        last_index_of(s.drop_last(), c)
    }
}

/// Port part of a `host:port` bind address (`4433` when there is none).
pub open spec fn bind_port(bind: Seq<char>) -> Seq<char> {
    match last_index_of(bind, ':') {
        Some(i) => bind.skip(i + 1),
        None => "4433"@,
    }
}

pub open spec fn all_digits(s: Seq<char>) -> bool {
    forall|i: int| 0 <= i < s.len() ==> '0' <= #[trigger] s[i] <= '9'
}

/// Host name of a `Host` header: a trailing `:port` is dropped.
pub open spec fn host_without_port(host: Seq<char>) -> Seq<char> {
    match last_index_of(host, ':') {
        Some(i) => if i + 1 < host.len() && all_digits(host.skip(i + 1)) {
            host.take(i)
        } else {
            host
        },
        None => host,
    }
}

/// The advertised WebTransport URL: only when enabled and the request
/// named a host; the browser's host with the WebTransport bind port.
pub open spec fn wt_url_spec(enabled: bool, bind: Seq<char>, host: Option<Seq<char>>) -> Option<Seq<char>> {
    if !enabled {
        None
    } else {
        match host {
            None => None,
            Some(h) => Some("https://"@ + host_without_port(h) + ":"@ + bind_port(bind) + "/wt"@),
        }
    }
}

proof fn lemma_last_index_after_colon(h: Seq<char>, p: Seq<char>)
    requires
        !p.contains(':'),
    ensures
        last_index_of(h + seq![':'] + p, ':') == Some(h.len() as int),
    decreases p.len(),
{
    let b = h + seq![':'] + p;
    if p.len() == 0 {
        assert(b.last() == ':');
    } else {
        assert(b.last() == p.last());
        assert(p.last() != ':') by {
            if p.last() == ':' {
                assert(p.contains(p[p.len() - 1]));
            }
        }
        assert(!p.drop_last().contains(':')) by {
            if p.drop_last().contains(':') {
                let k = choose|k: int| 0 <= k < p.drop_last().len() && p.drop_last()[k] == ':';
                assert(p[k] == ':');
            }
        }
        assert(b.drop_last() =~= h + seq![':'] + p.drop_last());
        lemma_last_index_after_colon(h, p.drop_last());
    }
}

proof fn lemma_last_index_none(s: Seq<char>, c: char)
    requires
        !s.contains(c),
    ensures
        last_index_of(s, c) is None,
    decreases s.len(),
{
    if s.len() > 0 {
        assert(s.last() != c) by {
            if s.last() == c {
                assert(s.contains(s[s.len() - 1]));
            }
        }
        assert(!s.drop_last().contains(c)) by {
            if s.drop_last().contains(c) {
                let k = choose|k: int| 0 <= k < s.drop_last().len() && s.drop_last()[k] == c;
                assert(s[k] == c);
            }
        }
        lemma_last_index_none(s.drop_last(), c);
    }
}

/// The advertised WebTransport port is the one `webtransport.bind` names:
/// for a bind `h:p` (any host part, a port with no colon), the URL the SPA
/// gets ends in `:p/wt`; a bind with no colon at all falls back to 4433.
pub proof fn law_wt_url_uses_bind_port(h: Seq<char>, p: Seq<char>, host: Seq<char>)
    requires
        !p.contains(':'),
    ensures
        bind_port(h + seq![':'] + p) == p,
        wt_url_spec(true, h + seq![':'] + p, Some(host)) matches Some(u) && u.len() >= p.len() + 4 && u.subrange(
            u.len() - p.len() - 4,
            u.len() as int,
        ) == seq![':'] + p + "/wt"@,
        !h.contains(':') ==> bind_port(h) == "4433"@,
{
    lemma_last_index_after_colon(h, p);
    let b = h + seq![':'] + p;
    assert(b.skip(h.len() + 1int) =~= p);
    reveal_strlit("/wt");
    reveal_strlit(":");
    let u = "https://"@ + host_without_port(host) + ":"@ + p + "/wt"@;
    assert(u.subrange(u.len() - p.len() - 4, u.len() as int) =~= seq![':'] + p + "/wt"@);
    if !h.contains(':') {
        lemma_last_index_none(h, ':');
    }
}

/// The host the SPA is told to dial is the browser's `Host` without its
/// port: `h:digits` becomes `h`, a host with no colon stays as it is; with
/// WebTransport disabled, or no `Host` header, no URL is advertised.
pub proof fn law_wt_url_host(h: Seq<char>, d: Seq<char>, bind: Seq<char>)
    requires
        !h.contains(':'),
        d.len() > 0,
        forall|k: int| 0 <= k < d.len() ==> '0' <= #[trigger] d[k] <= '9',
    ensures
        host_without_port(h + seq![':'] + d) == h,
        host_without_port(h) == h,
        wt_url_spec(false, bind, Some(h)) is None,
        wt_url_spec(true, bind, None) is None,
        wt_url_spec(true, bind, Some(h + seq![':'] + d)) == wt_url_spec(true, bind, Some(h)),
{
    assert(!d.contains(':')) by {
        if d.contains(':') {
            let k = choose|k: int| 0 <= k < d.len() && d[k] == ':';
            assert('0' <= d[k] <= '9');
        }
    }
    lemma_last_index_after_colon(h, d);
    let b = h + seq![':'] + d;
    assert(b.skip(h.len() + 1int) =~= d);
    assert(b.take(h.len() as int) =~= h);
    assert(all_digits(b.skip(h.len() + 1int)));
    lemma_last_index_none(h, ':');
}

fn last_colon(s: &[char]) -> (r: Option<usize>)
    ensures
        match r {
            Some(i) => last_index_of(s@, ':') == Some(i as int) && i < s@.len(),
            None => last_index_of(s@, ':') is None,
        },
{
    let mut n: usize = s.len();
    assert(s@.take(n as int) =~= s@);
    while n > 0 && s[n - 1] != ':'
        invariant
            n <= s@.len(),
            last_index_of(s@, ':') == last_index_of(s@.take(n as int), ':'),
        decreases n,
    {
        assert(s@.take(n as int).drop_last() =~= s@.take(n - 1));
        n = n - 1;
    }
    if n == 0 {
        None
    } else {
        Some(n - 1)
    }
}

fn copy_range(s: &[char], from: usize, to: usize) -> (r: Vec<char>)
    requires
        from <= to <= s@.len(),
    ensures
        r@ == s@.subrange(from as int, to as int),
{
    let mut r: Vec<char> = Vec::new();
    let mut i: usize = from;
    while i < to
        invariant
            from <= i <= to <= s@.len(),
            r@ == s@.subrange(from as int, i as int),
        decreases to - i,
    {
        r.push(s[i]);
        assert(s@.subrange(from as int, i + 1) =~= s@.subrange(from as int, i as int).push(s@[i as int]));
        i = i + 1;
    }
    r
}

fn digits_only(s: &[char]) -> (b: bool)
    ensures
        b == all_digits(s@),
{
    let mut i: usize = 0;
    while i < s.len()
        invariant
            i <= s@.len(),
            forall|j: int| 0 <= j < i ==> '0' <= #[trigger] s@[j] <= '9',
        decreases s@.len() - i,
    {
        if !('0' <= s[i] && s[i] <= '9') {
            return false;
        }
        i = i + 1;
    }
    true
}

fn append(v: &mut Vec<char>, s: &[char])
    ensures
        final(v)@ == old(v)@ + s@,
{
    crate::log_store::push_chars(v, s);
}

/// The WebTransport URL `GET /api/config` advertises.
pub fn wt_url(enabled: bool, bind: &str, host: Option<&str>) -> (r: Option<String>)
    ensures
        match r {
            Some(u) => wt_url_spec(enabled, bind@, match host {
                Some(h) => Some(h@),
                None => None,
            }) == Some(u@),
            None => wt_url_spec(enabled, bind@, match host {
                Some(h) => Some(h@),
                None => None,
            }) is None,
        },
{
    if !enabled {
        return None;
    }
    let h = match host {
        None => return None,
        Some(h) => h,
    };
    let hc = chars_of(h);
    let name: Vec<char> = match last_colon(hc.as_slice()) {
        Some(i) => {
            assert(i < hc.len());
            let tail = copy_range(hc.as_slice(), i + 1, hc.len());
            assert(tail@ =~= hc@.skip(i + 1));
            if i + 1 < hc.len() && digits_only(tail.as_slice()) {
                let head = copy_range(hc.as_slice(), 0, i);
                assert(head@ =~= hc@.take(i as int));
                head
            } else {
                hc
            }
        },
        None => hc,
    };
    let bc = chars_of(bind);
    let port: Vec<char> = match last_colon(bc.as_slice()) {
        Some(i) => {
            assert(i < bc.len());
            let p = copy_range(bc.as_slice(), i + 1, bc.len());
            assert(p@ =~= bc@.skip(i + 1));
            p
        },
        None => chars_of("4433"),
    };
    let mut url: Vec<char> = chars_of("https://");
    append(&mut url, name.as_slice());
    append(&mut url, chars_of(":").as_slice());
    append(&mut url, port.as_slice());
    append(&mut url, chars_of("/wt").as_slice());
    Some(string_from_chars(url.as_slice()))
}

/// The body of `GET /api/config` for a request that named `host`.
pub fn server_config(cfg: &Config, version: &str, actuator_model: &str, host: Option<&str>) -> (r: ServerConfig)
    ensures
        r.version@ == version@,
        r.actuator_model@ == actuator_model@,
        r.webtransport.enabled == cfg.webtransport.enabled,
        match r.webtransport.url {
            Some(u) => wt_url_spec(cfg.webtransport.enabled, cfg.webtransport.bind@, match host {
                Some(h) => Some(h@),
                None => None,
            }) == Some(u@),
            None => wt_url_spec(cfg.webtransport.enabled, cfg.webtransport.bind@, match host {
                Some(h) => Some(h@),
                None => None,
            }) is None,
        },
        r.features.mock_can == cfg.can.mock,
        r.features.require_verified == cfg.safety.require_verified,
{
    ServerConfig {
        version: copy_string(version),
        actuator_model: copy_string(actuator_model),
        webtransport: WebTransportAdvert {
            enabled: cfg.webtransport.enabled,
            url: wt_url(cfg.webtransport.enabled, cfg.webtransport.bind.as_str(), host),
        },
        features: ServerFeatures {
            mock_can: cfg.can.mock,
            require_verified: cfg.safety.require_verified,
        },
    }
}

} // verus!
