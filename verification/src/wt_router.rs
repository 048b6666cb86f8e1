//! Per-session WebTransport stream routing: the subscription filter, the
//! per-stream sequence counters and the framing of reliable frames.
//!
//! Opening the QUIC connection and CBOR-encoding payloads happen outside
//! the library; the session loop asks the router whether a frame passes the
//! filter, takes the next sequence number for its kind, and frames the
//! encoded bytes with [`frame_reliable`].
use vstd::prelude::*;

use crate::text::str_eq;
use crate::types::{wt_kind_index, MotorFeedback, WtKind, WtSubscribe, WtSubscribeFilters};

verus! {

/// Largest accepted `WtSubscribe` body, in bytes.
pub const MAX_SUBSCRIBE_BYTES: usize = 8192;

/// Active subscription of one session.
#[derive(Debug)]
pub struct SubscriptionFilter {
    /// `None` means "all kinds"; `Some(list)` is the explicit narrow filter.
    kinds: Option<Vec<WtKind>>,
    /// Per-kind sub-filters.
    sub: WtSubscribeFilters,
}

pub open spec fn kind_allowed(kinds: Option<Seq<WtKind>>, k: WtKind) -> bool {
    match kinds {
        None => true,
        Some(list) => list.contains(k),
    }
}

pub open spec fn motor_allowed(roles: Seq<Seq<char>>, role: Seq<char>) -> bool {
    roles.len() == 0 || roles.contains(role)
}

impl SubscriptionFilter {
    pub closed spec fn kinds_view(self) -> Option<Seq<WtKind>> {
        match self.kinds {
            Some(v) => Some(v@),
            None => None,
        }
    }

    pub closed spec fn motor_roles_view(self) -> Seq<Seq<char>> {
        self.sub.motor_roles@.map_values(|s: String| s@)
    }

    pub closed spec fn run_ids_view(self) -> Seq<Seq<char>> {
        self.sub.run_ids@.map_values(|s: String| s@)
    }

    /// The default filter: every kind, no narrowing.
    pub fn everything() -> (f: SubscriptionFilter)
        ensures
            f.kinds_view() is None,
            f.motor_roles_view().len() == 0,
            f.run_ids_view().len() == 0,
    {
        SubscriptionFilter { kinds: None, sub: WtSubscribeFilters::new() }
    }

    /// Does the filter let frames of `kind` through?
    pub fn allows_kind(&self, kind: WtKind) -> (b: bool)
        ensures
            b == kind_allowed(self.kinds_view(), kind),
    {
        match &self.kinds {
            None => true,
            Some(list) => {
                let mut i: usize = 0;
                while i < list.len()
                    invariant
                        i <= list@.len(),
                        self.kinds_view() == Some(list@),
                        forall|j: int| 0 <= j < i ==> list@[j] != kind,
                    decreases list@.len() - i,
                {
                    if list[i] == kind {
                        assert(list@[i as int] == kind);
                        return true;
                    }
                    i = i + 1;
                }
                false
            },
        }
    }

    /// Does the motor-role narrowing let feedback from `role` through?
    pub fn allows_motor(&self, role: &str) -> (b: bool)
        ensures
            b == motor_allowed(self.motor_roles_view(), role@),
    {
        let roles = &self.sub.motor_roles;
        if roles.len() == 0 {
            return true;
        }
        let mut i: usize = 0;
        while i < roles.len()
            invariant
                i <= roles@.len(),
                roles@ == self.sub.motor_roles@,
                forall|j: int| 0 <= j < i ==> roles@[j]@ != role@,
            decreases roles@.len() - i,
        {
            if str_eq(roles[i].as_str(), role) {
                assert(self.motor_roles_view()[i as int] == role@);
                return true;
            }
            i = i + 1;
        }
        proof {
            if self.motor_roles_view().contains(role@) {
                let j = choose|j: int|
                    0 <= j < self.motor_roles_view().len() && self.motor_roles_view()[j] == role@;
                assert(roles@[j]@ == role@);
            }
        }
        false
    }
}

/// Per-session router state: filter plus one sequence counter per kind.
#[derive(Debug)]
pub struct SessionRouter {
    filter: SubscriptionFilter,
    /// Next sequence number of each kind, indexed by declaration order.
    seq: [u64; 6],
}

impl SessionRouter {
    pub closed spec fn filter_kinds(self) -> Option<Seq<WtKind>> {
        self.filter.kinds_view()
    }

    pub closed spec fn filter_roles(self) -> Seq<Seq<char>> {
        self.filter.motor_roles_view()
    }

    /// Next sequence number that `kind` will be stamped with.
    pub closed spec fn next_seq_of(self, kind: WtKind) -> u64 {
        self.seq@[wt_kind_index(kind)]
    }

    /// A fresh router: every kind allowed, every counter at zero.
    pub fn new() -> (r: SessionRouter)
        ensures
            r.filter_kinds() is None,
            r.filter_roles().len() == 0,
            (r.filter_kinds(), r.filter_roles()) == subscribed_filter(Seq::empty()),
            forall|k: WtKind| #[trigger] r.next_seq_of(k) == 0,
    {
        SessionRouter { filter: SubscriptionFilter::everything(), seq: [0u64; 6] }
    }

    /// Replace the active filter with the one a client sent. An empty kinds
    /// list means "all kinds".
    pub fn apply_subscribe(&mut self, sub: WtSubscribe)
        ensures
            sub.kinds@.len() == 0 ==> final(self).filter_kinds() is None,
            sub.kinds@.len() > 0 ==> final(self).filter_kinds() == Some(sub.kinds@),
            final(self).filter_roles() == sub.filters.motor_roles@.map_values(|s: String| s@),
            (final(self).filter_kinds(), final(self).filter_roles()) == filter_of(
                sub.kinds@,
                sub.filters.motor_roles@.map_values(|s: String| s@),
            ),
            forall|k: WtKind| #[trigger] final(self).next_seq_of(k) == old(self).next_seq_of(k),
    {
        let kinds = if sub.kinds.len() == 0 {
            None
        } else {
            Some(sub.kinds)
        };
        self.filter = SubscriptionFilter { kinds, sub: sub.filters };
    }

    /// Should this feedback sample be forwarded to the peer?
    pub fn allows_motor_feedback(&self, fb: &MotorFeedback) -> (b: bool)
        ensures
            b == (kind_allowed(self.filter_kinds(), WtKind::MotorFeedback) && motor_allowed(
                self.filter_roles(),
                fb.role@,
            )),
    {
        self.filter.allows_kind(WtKind::MotorFeedback) && self.filter.allows_motor(fb.role.as_str())
    }

    /// Does the active filter let frames of `kind` through?
    pub fn allows_kind(&self, kind: WtKind) -> (b: bool)
        ensures
            b == kind_allowed(self.filter_kinds(), kind),
    {
        self.filter.allows_kind(kind)
    }

    /// Should host snapshots be forwarded to the peer?
    pub fn allows_system_snapshot(&self) -> (b: bool)
        ensures
            b == kind_allowed(self.filter_kinds(), WtKind::SystemSnapshot),
    {
        self.filter.allows_kind(WtKind::SystemSnapshot)
    }

    /// Take the sequence number for the next frame of `kind`; the counter
    /// then advances, wrapping at `u64::MAX`.
    pub fn next_seq(&mut self, kind: WtKind) -> (s: u64)
        ensures
            s == old(self).next_seq_of(kind),
            final(self).next_seq_of(kind) == (if s == u64::MAX {
                0
            } else {
                (s + 1) as u64
            }),
            forall|k: WtKind| k != kind ==> #[trigger] final(self).next_seq_of(k) == old(self).next_seq_of(k),
            final(self).filter_kinds() == old(self).filter_kinds(),
            final(self).filter_roles() == old(self).filter_roles(),
    {
        let i = kind.index();
        let s = self.seq[i];
        let n = if s == u64::MAX {
            0
        } else {
            s + 1
        };
        self.seq.set(i, n);
        proof {
            assert forall|k: WtKind| k != kind implies #[trigger] self.next_seq_of(k) == old(
                self,
            ).next_seq_of(k) by {
                assert(wt_kind_index(k) != wt_kind_index(kind));
            }
        }
        s
    }
}

/// The (kinds, motor roles) filter a subscription message sets: an empty
/// kinds list means every kind.
pub open spec fn filter_of(kinds: Seq<WtKind>, roles: Seq<Seq<char>>) -> (Option<Seq<WtKind>>, Seq<Seq<char>>) {
    (if kinds.len() == 0 { None } else { Some(kinds) }, roles)
}

/// The filter of a session that received the subscription messages `subs`
/// (kinds, motor roles) in order: the last one wins; with none, everything.
pub open spec fn subscribed_filter(subs: Seq<(Seq<WtKind>, Seq<Seq<char>>)>) -> (Option<Seq<WtKind>>, Seq<Seq<char>>) {
    if subs.len() == 0 {
        (None, Seq::empty())
    } else {
        filter_of(subs.last().0, subs.last().1)
    }
}

/// After any sequence of subscribe messages, a motor's feedback is forwarded
/// exactly when the last message (if any) lists the motor-feedback kind or
/// no kinds at all, and lists the motor's role or no roles at all. An empty
/// kinds list means all kinds, never none.
pub proof fn law_feedback_after_subscribes(subs: Seq<(Seq<WtKind>, Seq<Seq<char>>)>, role: Seq<char>)
    ensures
        (kind_allowed(subscribed_filter(subs).0, WtKind::MotorFeedback) && motor_allowed(
            subscribed_filter(subs).1,
            role,
        )) <==> (subs.len() == 0 || ((subs.last().0.len() == 0 || subs.last().0.contains(
            WtKind::MotorFeedback,
        )) && (subs.last().1.len() == 0 || subs.last().1.contains(role)))),
        forall|k: (Seq<WtKind>, Seq<Seq<char>>)| #[trigger] subscribed_filter(subs.push(k)) == filter_of(k.0, k.1),
{
    assert forall|k: (Seq<WtKind>, Seq<Seq<char>>)| #[trigger] subscribed_filter(subs.push(k)) == filter_of(k.0, k.1) by {
        assert(subs.push(k).last() == k);
    }
}

/// A reliable frame body longer than a `u32` length header can describe.
#[derive(Debug, Clone, Copy, PartialEq, Eq, Structural)]
pub struct FrameTooLarge {
    pub len: usize,
}

/// Big-endian bytes of a `u32`.
pub open spec fn be_bytes(n: u32) -> Seq<u8> {
    seq![
        (n / 0x1000000) as u8,
        ((n / 0x10000) % 0x100) as u8,
        ((n / 0x100) % 0x100) as u8,
        (n % 0x100) as u8,
    ]
}

/// Value of four big-endian bytes.
pub open spec fn be_value(b: Seq<u8>) -> int {
    b[0] * 0x1000000 + b[1] * 0x10000 + b[2] * 0x100 + b[3]
}

/// Length-prefixed reliable frame: `u32 big-endian length | body`.
pub fn frame_reliable(body: &[u8]) -> (r: Result<Vec<u8>, FrameTooLarge>)
    ensures
        match r {
            Ok(frame) => body@.len() <= u32::MAX && frame@ == be_bytes(body@.len() as u32)
                + body@,
            Err(e) => body@.len() > u32::MAX && e.len == body@.len(),
        },
{
    if body.len() > 0xFFFF_FFFFusize {
        return Err(FrameTooLarge { len: body.len() });
    }
    let n = body.len() as u32;
    let mut frame: Vec<u8> = Vec::new();
    frame.push((n / 0x1000000) as u8);
    frame.push(((n / 0x10000) % 0x100) as u8);
    frame.push(((n / 0x100) % 0x100) as u8);
    frame.push((n % 0x100) as u8);
    let ghost head = frame@;
    let mut i: usize = 0;
    while i < body.len()
        invariant
            i <= body@.len(),
            head == be_bytes(n),
            frame@ == head + body@.take(i as int),
        decreases body@.len() - i,
    {
        frame.push(body[i]);
        assert(body@.take(i + 1) == body@.take(i as int).push(body@[i as int]));
        i = i + 1;
    }
    assert(body@.take(body@.len() as int) =~= body@);
    Ok(frame)
}

/// Split a reliable frame into its declared length and the rest.
pub fn parse_frame_header(frame: &[u8]) -> (r: Option<(u32, usize)>)
    ensures
        match r {
            Some((len, off)) => frame@.len() >= 4 && off == 4 && len == be_value(frame@.subrange(0, 4)),
            None => frame@.len() < 4,
        },
{
    if frame.len() < 4 {
        return None;
    }
    let a = frame[0] as u32;
    let b = frame[1] as u32;
    let c = frame[2] as u32;
    let d = frame[3] as u32;
    let len = a * 0x1000000 + b * 0x10000 + c * 0x100 + d;
    Some((len, 4))
}

/// The length header a frame is written with reads back as the body length.
pub proof fn law_frame_header_round_trip(n: u32)
    ensures
        be_value(be_bytes(n)) == n,
{
    let b = be_bytes(n);
    assert(b[0] == n / 0x1000000);
    assert(b[1] == (n / 0x10000) % 0x100);
    assert(b[2] == (n / 0x100) % 0x100);
    assert(b[3] == n % 0x100);
    assert((n / 0x1000000) * 0x1000000 + ((n / 0x10000) % 0x100) * 0x10000 + ((n / 0x100) % 0x100)
        * 0x100 + n % 0x100 == n) by (nonlinear_arith);
}

/// May a subscribe body that already holds `have` bytes take `more` more?
pub fn subscribe_chunk_fits(have: usize, more: usize) -> (ok: bool)
    ensures
        ok == (have + more <= MAX_SUBSCRIBE_BYTES),
{
    if have > MAX_SUBSCRIBE_BYTES {
        return false;
    }
    more <= MAX_SUBSCRIBE_BYTES - have
}

} // verus!
