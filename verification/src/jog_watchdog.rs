//! Dead-man watchdog of the jog endpoint: every accepted jog arms (or
//! refreshes) a per-motor deadline; a motor whose deadline passes without
//! a fresh jog is stopped by the daemon's watchdog loop.
//!
//! Times are milliseconds on the daemon's monotonic clock.
use vstd::prelude::*;

use crate::rolemap::{due_set, name_views, not_due, RoleMap};

verus! {

/// Deadline of a jog armed at `now_ms` for `ttl_ms` (saturating at the
/// end of the clock).
pub open spec fn deadline(now_ms: u64, ttl_ms: u64) -> u64 {
    if now_ms + ttl_ms > u64::MAX {
        u64::MAX
    } else {
        (now_ms + ttl_ms) as u64
    }
}

/// Per-motor jog deadlines.
pub struct JogWatchdog {
    deadlines: RoleMap<u64>,
}

impl JogWatchdog {
    pub closed spec fn wf(self) -> bool {
        self.deadlines.wf()
    }

    /// Pending deadline of each motor with a live jog.
    pub closed spec fn view(self) -> Map<Seq<char>, u64> {
        self.deadlines@
    }

    pub fn new() -> (w: JogWatchdog)
        ensures
            w.wf(),
            w@ == Map::<Seq<char>, u64>::empty(),
    {
        JogWatchdog { deadlines: RoleMap::new() }
    }

    /// Arm or refresh the deadline of `role`: `ttl_ms` from `now_ms`.
    pub fn arm(&mut self, role: &str, now_ms: u64, ttl_ms: u64)
        requires
            old(self).wf(),
        ensures
            final(self).wf(),
            final(self)@ == old(self)@.insert(role@, deadline(now_ms, ttl_ms)),
    {
        let d = now_ms.saturating_add(ttl_ms);
        self.deadlines.insert(role, d);
    }

    /// Deadline pending for `role`, if its jog is live.
    pub fn deadline_of(&self, role: &str) -> (r: Option<u64>)
        requires
            self.wf(),
        ensures
            r == (if self@.dom().contains(role@) {
                Some(self@[role@])
            } else {
                None::<u64>
            }),
    {
        match self.deadlines.get(role) {
            Some(d) => Some(*d),
            None => None,
        }
    }

    /// Forget every deadline at or before `now_ms` and return those motors,
    /// each once: they are to be stopped.
    pub fn take_expired(&mut self, now_ms: u64) -> (expired: Vec<String>)
        requires
            old(self).wf(),
        ensures
            final(self).wf(),
            final(self)@ == not_due(old(self)@, now_ms),
            name_views(expired@).no_duplicates(),
            name_views(expired@).to_set() == due_set(old(self)@, now_ms),
    {
        self.deadlines.take_due(now_ms)
    }
}

/// A jog refreshed at `now_ms` is not stopped before its new deadline,
/// whatever deadline it had before (short of the end of the clock).
pub proof fn law_refresh_postpones_stop(m: Map<Seq<char>, u64>, role: Seq<char>, now_ms: u64, ttl_ms: u64, later_ms: u64)
    requires
        now_ms + ttl_ms <= u64::MAX,
        later_ms < now_ms + ttl_ms,
    ensures
        !due_set(m.insert(role, deadline(now_ms, ttl_ms)), later_ms).contains(role),
        not_due(m.insert(role, deadline(now_ms, ttl_ms)), later_ms).dom().contains(role),
{
    let m2 = m.insert(role, deadline(now_ms, ttl_ms));
    assert(m2[role] == now_ms + ttl_ms);
}

/// Once its deadline has passed, a motor is reported once: it is gone from
/// the table until it is armed again.
pub proof fn law_expired_reported_once(m: Map<Seq<char>, u64>, now_ms: u64, later_ms: u64)
    ensures
        forall|r: Seq<char>| #[trigger] due_set(m, now_ms).contains(r) ==> !due_set(not_due(m, now_ms), later_ms).contains(r),
{
}

/// A deadline that has passed is always reported: no motor whose jog
/// lapsed stays in the table.
pub proof fn law_no_lapsed_deadline_survives(m: Map<Seq<char>, u64>, now_ms: u64)
    ensures
        forall|r: Seq<char>| #[trigger] not_due(m, now_ms).dom().contains(r) ==> not_due(m, now_ms)[r] > now_ms,
{
}

} // verus!
