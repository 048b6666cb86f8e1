//! Single-operator control lock.
//!
//! At most one session may issue mutating commands. The first mutating
//! request from a named session claims a free lock; a request from a
//! different session while the lock is held is refused with the holder's id.
use vstd::prelude::*;

use crate::clock;
use crate::text::{copy_string, str_eq};

verus! {

/// Identity record for whichever session currently owns the lock.
#[derive(Debug)]
pub struct ControlLockHolder {
    pub session_id: String,
    pub acquired_at_ms: i64,
}

/// How `ensure_control` let a request through.
#[derive(Debug, Clone, Copy, PartialEq, Eq, Structural)]
pub enum ControlGrant {
    /// The requesting session already held the lock.
    AlreadyHeld,
    /// The lock was free and is now held by the requesting session.
    Claimed,
    /// The lock is free and the request carried no session id; nothing was claimed.
    Unclaimed,
}

/// View of the lock as served by `GET /api/lock`.
#[derive(Debug)]
pub struct LockState {
    pub holder: Option<String>,
    pub acquired_at_ms: Option<i64>,
    /// Whether the requester currently holds the lock.
    pub you_hold: bool,
}

/// The lock: who holds it (if anyone) and since when.
#[derive(Debug)]
pub struct ControlLock {
    holder: Option<ControlLockHolder>,
}

/// Abstract lock: the holder's session id and acquisition time.
pub type LockView = Option<(Seq<char>, i64)>;

pub open spec fn holds(v: LockView, session: Seq<char>) -> bool {
    v matches Some((h, _)) && h == session
}

impl ControlLock {
    pub closed spec fn view(self) -> LockView {
        match self.holder {
            Some(h) => Some((h.session_id@, h.acquired_at_ms)),
            None => None,
        }
    }

    /// A free lock.
    pub fn new() -> (l: ControlLock)
        ensures
            l@ is None,
    {
        ControlLock { holder: None }
    }

    /// Session id of the current holder, if any.
    pub fn holder_id(&self) -> (r: Option<String>)
        ensures
            match r {
                Some(s) => self@ matches Some((h, _)) && s@ == h,
                None => self@ is None,
            },
    {
        match &self.holder {
            Some(h) => Some(h.session_id.clone()),
            None => None,
        }
    }

    /// Gate every mutating request: a free lock is claimed by a named session,
    /// the holder passes, any other session is refused with the holder's id.
    pub fn ensure_control_at(&mut self, session_id: &str, now_ms: i64) -> (r: Result<ControlGrant, String>)
        ensures
            final(self)@ == after_ensure(old(self)@, session_id@, now_ms),
            r is Ok <==> ensure_passes(old(self)@, session_id@),
            match old(self)@ {
                Some((h, t)) => if h == session_id@ {
                    r == Ok::<ControlGrant, String>(ControlGrant::AlreadyHeld) && final(self)@ == old(
                        self,
                    )@
                } else {
                    (r matches Err(e) && e@ == h) && final(self)@ == old(self)@
                },
                None => if session_id@.len() == 0 {
                    r == Ok::<ControlGrant, String>(ControlGrant::Unclaimed) && final(self)@ is None
                } else {
                    r == Ok::<ControlGrant, String>(ControlGrant::Claimed) && final(self)@ == Some(
                        (session_id@, now_ms),
                    )
                },
            },
    {
        match &self.holder {
            Some(h) => {
                if str_eq(h.session_id.as_str(), session_id) {
                    Ok(ControlGrant::AlreadyHeld)
                } else {
                    Err(h.session_id.clone())
                }
            },
            None => {
                if session_id.is_empty() {
                    return Ok(ControlGrant::Unclaimed);
                }
                self.holder = Some(
                    ControlLockHolder { session_id: copy_string(session_id), acquired_at_ms: now_ms },
                );
                Ok(ControlGrant::Claimed)
            },
        }
    }

    /// May `session_id` issue a mutating command right now (without
    /// claiming the lock)? Yes when it holds the lock or nobody does.
    pub fn has_control(&self, session_id: &str) -> (b: bool)
        ensures
            b == ensure_passes(self@, session_id@),
    {
        match &self.holder {
            Some(h) => str_eq(h.session_id.as_str(), session_id),
            None => true,
        }
    }

    /// [`Self::ensure_control_at`] stamped with the current wallclock.
    pub fn ensure_control(&mut self, session_id: &str) -> (r: Result<ControlGrant, String>)
        ensures
            match old(self)@ {
                Some((h, t)) => if h == session_id@ {
                    r == Ok::<ControlGrant, String>(ControlGrant::AlreadyHeld) && final(self)@ == old(
                        self,
                    )@
                } else {
                    (r matches Err(e) && e@ == h) && final(self)@ == old(self)@
                },
                None => if session_id@.len() == 0 {
                    r == Ok::<ControlGrant, String>(ControlGrant::Unclaimed) && final(self)@ is None
                } else {
                    r == Ok::<ControlGrant, String>(ControlGrant::Claimed) && holds(final(self)@, session_id@)
                },
            },
    {
        let now = clock::now_unix_ms();
        self.ensure_control_at(session_id, now)
    }

    /// Take the lock for `session_id` (taking it over from any other holder).
    /// Returns the previous holder's id and acquisition time.
    pub fn acquire_control_at(&mut self, session_id: &str, now_ms: i64) -> (prev: Option<(String, i64)>)
        ensures
            final(self)@ == Some((session_id@, now_ms)),
            match prev {
                Some((s, t)) => old(self)@ == Some((s@, t)),
                None => old(self)@ is None,
            },
    {
        let prev = match self.holder.take() {
            Some(h) => Some((h.session_id, h.acquired_at_ms)),
            None => None,
        };
        self.holder = Some(
            ControlLockHolder { session_id: copy_string(session_id), acquired_at_ms: now_ms },
        );
        prev
    }

    /// [`Self::acquire_control_at`] stamped with the current wallclock.
    pub fn acquire_control(&mut self, session_id: &str) -> (prev: Option<(String, i64)>)
        ensures
            holds(final(self)@, session_id@),
            match prev {
                Some((s, t)) => old(self)@ == Some((s@, t)),
                None => old(self)@ is None,
            },
    {
        let now = clock::now_unix_ms();
        self.acquire_control_at(session_id, now)
    }

    /// Release the lock if `session_id` holds it; returns whether it did.
    pub fn release_control(&mut self, session_id: &str) -> (released: bool)
        ensures
            released == holds(old(self)@, session_id@),
            released ==> final(self)@ is None,
            !released ==> final(self)@ == old(self)@,
    {
        let is_holder = match &self.holder {
            Some(h) => str_eq(h.session_id.as_str(), session_id),
            None => false,
        };
        if is_holder {
            self.holder = None;
        }
        is_holder
    }

    /// Lock state as seen by the requester `session` (which may be anonymous).
    pub fn lock_state(&self, session: Option<&str>) -> (r: LockState)
        ensures
            match self@ {
                Some((h, t)) => (r.holder matches Some(s) && s@ == h) && r.acquired_at_ms == Some(t),
                None => r.holder is None && r.acquired_at_ms is None,
            },
            r.you_hold == (session matches Some(s) && holds(self@, s@)),
    {
        match &self.holder {
            Some(h) => {
                let you_hold = match session {
                    Some(s) => str_eq(h.session_id.as_str(), s),
                    None => false,
                };
                LockState {
                    holder: Some(h.session_id.clone()),
                    acquired_at_ms: Some(h.acquired_at_ms),
                    you_hold,
                }
            },
            None => LockState { holder: None, acquired_at_ms: None, you_hold: false },
        }
    }
}

/// Spec of `ensure_control`'s effect on the lock.
pub open spec fn after_ensure(v: LockView, session: Seq<char>, now: i64) -> LockView {
    match v {
        Some(_) => v,
        None => if session.len() == 0 {
            None
        } else {
            Some((session, now))
        },
    }
}

/// Is a request from `session` admitted by `ensure_control`?
pub open spec fn ensure_passes(v: LockView, session: Seq<char>) -> bool {
    match v {
        Some((h, _)) => h == session,
        None => true,
    }
}

/// Mutual exclusion: once a session holds the lock, every other session is
/// refused and the lock stays with the holder.
pub proof fn law_lock_excludes_others(
    v: LockView,
    holder: Seq<char>,
    other: Seq<char>,
    now: i64,
)
    requires
        holds(v, holder),
        other != holder,
    ensures
        !ensure_passes(v, other),
        after_ensure(v, other, now) == v,
        holds(after_ensure(v, other, now), holder),
{
}

/// A named session admitted by `ensure_control` holds the lock afterwards.
pub proof fn law_passing_session_holds(v: LockView, session: Seq<char>, now: i64)
    requires
        session.len() > 0,
        ensure_passes(v, session),
    ensures
        holds(after_ensure(v, session, now), session),
{
}

/// An anonymous request never claims the lock.
pub proof fn law_anonymous_never_claims(v: LockView, now: i64)
    ensures
        after_ensure(v, Seq::empty(), now) == v,
{
}

} // verus!
