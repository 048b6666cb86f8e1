//! Decisions of the per-bus CAN worker: CPU placement, decoding of received
//! frame identifiers, bookkeeping of in-flight parameter reads and the
//! velocity-mode re-arm rule.
//!
//! The worker thread itself (socket I/O, channels, timers) lives outside
//! the library and consults these functions.
use vstd::prelude::*;

verus! {

/// Soft cap on commands drained per worker iteration.
pub const CMD_DRAIN_BATCH: usize = 8;

/// Receive-side timeout of the worker loop, in milliseconds.
pub const RECV_POLL_TIMEOUT_MS: u64 = 5;

/// Round-trip timeout for type-17 reads / writes that expect a reply, in milliseconds.
pub const REPLY_TIMEOUT_MS: u64 = 50;

/// Communication type of motor feedback frames (type 2).
pub const COMM_MOTOR_FEEDBACK: u8 = 2;

/// Communication type of parameter-read frames and replies (type 17).
pub const COMM_READ_PARAM: u8 = 17;

/// Host id the daemon uses on the bus.
pub const DEFAULT_HOST_ID: u8 = 0xFD;

/// Pick the CPU a bus worker is pinned to when its configuration names
/// none: core 0 is left to the kernel and the runtime, buses are spread
/// round-robin over cores `1..cpu_count`; a single core means no pinning.
pub fn auto_assign_cpu(index: usize, cpu_count: usize) -> (r: Option<usize>)
    ensures
        cpu_count < 2 ==> r is None,
        cpu_count >= 2 ==> r == Some((1 + (index as int) % (cpu_count - 1)) as usize),
{
    if cpu_count < 2 {
        return None;
    }
    let n = cpu_count - 1;
    Some(1 + (index % n))
}

/// A worker is never pinned to core 0, and always to an existing core.
pub proof fn law_auto_assign_avoids_core_zero(index: usize, cpu_count: usize)
    requires
        cpu_count >= 2,
    ensures
        1 <= 1 + (index as int) % (cpu_count - 1) < cpu_count,
{
}

/// The CPU a worker asked for, if the machine has it.
pub fn core_for(requested: usize, available: usize) -> (r: Option<usize>)
    ensures
        r == (if requested < available {
            Some(requested)
        } else {
            None::<usize>
        }),
{
    if requested < available {
        Some(requested)
    } else {
        None
    }
}

/// 29-bit arbitration id of an extended frame (flag bits above bit 28 cleared).
pub open spec fn raw_id(can_id: u32) -> int {
    (can_id % 0x2000_0000) as int
}

/// Communication type: bits 24..=28 of the arbitration id.
pub open spec fn comm_type_of(can_id: u32) -> int {
    raw_id(can_id) / 0x100_0000
}

/// Bits 16..=23 of the arbitration id (source motor of a type-2 frame,
/// status of a type-17 reply).
pub open spec fn id_byte2(can_id: u32) -> int {
    (raw_id(can_id) / 0x1_0000) % 0x100
}

/// Bits 8..=15 of the arbitration id (motor of a type-17 reply).
pub open spec fn id_byte1(can_id: u32) -> int {
    (raw_id(can_id) / 0x100) % 0x100
}

/// What one received frame means to the worker.
#[derive(Debug, Clone, Copy)]
pub enum FrameKind {
    /// Type-2 feedback from `src_motor`.
    Feedback { src_motor: u8 },
    /// Type-17 reply from `motor` for parameter `index`; `value` is `None`
    /// when the motor reported a read failure.
    ReadReply { motor: u8, index: u16, value: Option<[u8; 4]> },
    /// Anything else (short frames, other communication types).
    Ignored,
}

/// Meaning of a received frame, per the RobStride identifier layout.
pub open spec fn frame_kind(can_id: u32, data: [u8; 8], dlc: usize) -> FrameKind {
    if comm_type_of(can_id) == COMM_MOTOR_FEEDBACK as int {
        if dlc < 8 {
            FrameKind::Ignored
        } else {
            FrameKind::Feedback { src_motor: id_byte2(can_id) as u8 }
        }
    } else if comm_type_of(can_id) == COMM_READ_PARAM as int {
        if dlc < 8 {
            FrameKind::Ignored
        } else {
            FrameKind::ReadReply {
                motor: id_byte1(can_id) as u8,
                index: (data[0] + data[1] * 0x100) as u16,
                value: if id_byte2(can_id) == 0 {
                    Some([data[4], data[5], data[6], data[7]])
                } else {
                    None
                },
            }
        }
    } else {
        FrameKind::Ignored
    }
}

/// Decode a received frame.
pub fn classify_frame(can_id: u32, data: [u8; 8], dlc: usize) -> (k: FrameKind)
    ensures
        k == frame_kind(can_id, data, dlc),
{
    let raw = can_id & 0x1FFF_FFFFu32;
    let comm = raw >> 24u32;
    let b2 = (raw >> 16u32) & 0xFFu32;
    let b1 = (raw >> 8u32) & 0xFFu32;
    proof {
        assert(raw == can_id % 0x2000_0000) by (bit_vector)
            requires
                raw == can_id & 0x1FFF_FFFFu32,
        ;
        assert(comm == raw / 0x100_0000) by (bit_vector)
            requires
                comm == raw >> 24u32,
        ;
        assert(b2 == (raw / 0x1_0000) % 0x100) by (bit_vector)
            requires
                b2 == (raw >> 16u32) & 0xFFu32,
        ;
        assert(b1 == (raw / 0x100) % 0x100) by (bit_vector)
            requires
                b1 == (raw >> 8u32) & 0xFFu32,
        ;
    }
    if comm == 2 {
        if dlc < 8 {
            return FrameKind::Ignored;
        }
        return FrameKind::Feedback { src_motor: b2 as u8 };
    }
    if comm == 17 {
        if dlc < 8 {
            return FrameKind::Ignored;
        }
        let index: u16 = (data[0] as u16) + (data[1] as u16) * 256;
        let value = if b2 == 0 {
            Some([data[4], data[5], data[6], data[7]])
        } else {
            None
        };
        return FrameKind::ReadReply { motor: b1 as u8, index, value };
    }
    FrameKind::Ignored
}

/// Payload of a type-17 read request for parameter `index`.
pub fn read_request_payload(index: u16) -> (p: [u8; 8])
    ensures
        p[0] == index % 0x100,
        p[1] == index / 0x100,
        forall|i: int| 2 <= i < 8 ==> p[i] == 0,
{
    let mut p = [0u8; 8];
    p.set(0, (index % 256) as u8);
    p.set(1, (index / 256) as u8);
    p
}

/// Outstanding type-17 reads are keyed by motor and parameter index.
#[derive(Debug, Clone, Copy, PartialEq, Eq, Structural, Hash)]
pub struct PendingKey {
    pub motor_id: u8,
    pub index: u16,
}

/// Outstanding reads: for each key, the waiter and its deadline (ms).
pub struct PendingTable<T> {
    entries: Vec<(PendingKey, T, u64)>,
}

/// Entries whose deadline is still ahead of `now`.
pub open spec fn live_at<T>(now: u64) -> spec_fn((PendingKey, T, u64)) -> bool {
    |e: (PendingKey, T, u64)| e.2 > now
}

/// Entries whose deadline has passed at `now`.
pub open spec fn expired_at<T>(now: u64) -> spec_fn((PendingKey, T, u64)) -> bool {
    |e: (PendingKey, T, u64)| e.2 <= now
}

pub open spec fn pending_wf<T>(s: Seq<(PendingKey, T, u64)>) -> bool {
    forall|i: int, j: int|
        0 <= i < s.len() && 0 <= j < s.len() && i != j ==> (#[trigger] s[i]).0 != (#[trigger] s[j]).0
}

/// The waiter handed back when a key is parked again is the one parked for
/// that key: in a table without repeated keys, two entries with the same key
/// are the same entry.
pub proof fn law_parked_waiter_is_unique<T>(s: Seq<(PendingKey, T, u64)>, key: PendingKey, i: int, j: int)
    requires
        pending_wf(s),
        0 <= i < s.len(),
        0 <= j < s.len(),
        s[i].0 == key,
        s[j].0 == key,
    ensures
        i == j,
        s[i].1 == s[j].1,
{
}

impl<T> PendingTable<T> {
    pub closed spec fn wf(self) -> bool {
        pending_wf(self.entries@)
    }

    /// Outstanding entries, in arrival order.
    pub closed spec fn view(self) -> Seq<(PendingKey, T, u64)> {
        self.entries@
    }

    /// A well-formed table parks each key at most once.
    pub proof fn lemma_keys_unique(self)
        requires
            self.wf(),
        ensures
            pending_wf(self@),
    {
    }

    pub fn new() -> (t: PendingTable<T>)
        ensures
            t.wf(),
            t@.len() == 0,
    {
        PendingTable { entries: Vec::new() }
    }

    pub fn len(&self) -> (n: usize)
        ensures
            n == self@.len(),
    {
        self.entries.len()
    }

    fn position(&self, key: PendingKey) -> (r: Option<usize>)
        ensures
            match r {
                Some(i) => i < self@.len() && self@[i as int].0 == key,
                None => forall|i: int| 0 <= i < self@.len() ==> (#[trigger] self@[i]).0 != key,
            },
    {
        let mut i: usize = 0;
        while i < self.entries.len()
            invariant
                i <= self@.len(),
                forall|j: int| 0 <= j < i ==> (#[trigger] self@[j]).0 != key,
            decreases self@.len() - i,
        {
            if self.entries[i].0 == key {
                return Some(i);
            }
            i = i + 1;
        }
        None
    }

    /// Park a waiter for `key`. A waiter already parked for the same key is
    /// superseded: it is handed back so its caller can be failed fast.
    pub fn insert(&mut self, key: PendingKey, reply: T, deadline_ms: u64) -> (prev: Option<T>)
        requires
            old(self).wf(),
        ensures
            final(self).wf(),
            match prev {
                Some(p) => exists|i: int|
                    0 <= i < old(self)@.len() && old(self)@[i].0 == key && old(self)@[i].1 == p
                        && final(self)@ == old(self)@.remove(i).push((key, reply, deadline_ms)),
                None => (forall|i: int| 0 <= i < old(self)@.len() ==> (#[trigger] old(self)@[i]).0 != key)
                    && final(self)@ == old(self)@.push((key, reply, deadline_ms)),
            },
    {
        match self.position(key) {
            Some(i) => {
                let ghost before = self.entries@;
                let (_, old_reply, _) = self.entries.remove(i);
                self.entries.push((key, reply, deadline_ms));
                proof {
                    assert(self.entries@ == before.remove(i as int).push((key, reply, deadline_ms)));
                    assert forall|a: int, b: int|
                        0 <= a < self.entries@.len() && 0 <= b < self.entries@.len() && a
                            != b implies (#[trigger] self.entries@[a]).0 != (
                    #[trigger] self.entries@[b]).0 by {
                        let n = self.entries@.len() - 1;
                        let oa = if a < i { a } else { a + 1 };
                        let ob = if b < i { b } else { b + 1 };
                        if a < n && b < n {
                            assert(self.entries@[a] == before[oa]);
                            assert(self.entries@[b] == before[ob]);
                        } else if a == n {
                            assert(self.entries@[b] == before[ob]);
                            assert(ob != i);
                        } else {
                            assert(self.entries@[a] == before[oa]);
                            assert(oa != i);
                        }
                    }
                }
                Some(old_reply)
            },
            None => {
                self.entries.push((key, reply, deadline_ms));
                proof {
                    assert forall|a: int, b: int|
                        0 <= a < self.entries@.len() && 0 <= b < self.entries@.len() && a
                            != b implies (#[trigger] self.entries@[a]).0 != (
                    #[trigger] self.entries@[b]).0 by {
                        let n = self.entries@.len() - 1;
                        if a < n && b < n {
                            assert(self.entries@[a] == old(self).entries@[a]);
                            assert(self.entries@[b] == old(self).entries@[b]);
                        } else if a == n {
                            assert(self.entries@[b] == old(self).entries@[b]);
                        } else {
                            assert(self.entries@[a] == old(self).entries@[a]);
                        }
                    }
                }
                None
            },
        }
    }

    /// A reply for `key` arrived: hand back the waiter, if one is parked.
    pub fn take(&mut self, key: PendingKey) -> (r: Option<T>)
        requires
            old(self).wf(),
        ensures
            final(self).wf(),
            match r {
                Some(p) => exists|i: int|
                    0 <= i < old(self)@.len() && old(self)@[i].0 == key && old(self)@[i].1 == p
                        && final(self)@ == old(self)@.remove(i),
                None => (forall|i: int| 0 <= i < old(self)@.len() ==> (#[trigger] old(self)@[i]).0 != key)
                    && final(self)@ == old(self)@,
            },
    {
        match self.position(key) {
            Some(i) => {
                let ghost before = self.entries@;
                let (_, reply, _) = self.entries.remove(i);
                proof {
                    assert forall|a: int, b: int|
                        0 <= a < self.entries@.len() && 0 <= b < self.entries@.len() && a
                            != b implies (#[trigger] self.entries@[a]).0 != (
                    #[trigger] self.entries@[b]).0 by {
                        let oa = if a < i { a } else { a + 1 };
                        let ob = if b < i { b } else { b + 1 };
                        assert(self.entries@[a] == before[oa]);
                        assert(self.entries@[b] == before[ob]);
                    }
                }
                Some(reply)
            },
            None => None,
        }
    }

    /// Remove every waiter whose deadline is at or before `now_ms` and hand
    /// them back (in arrival order) so they can be failed with a timeout.
    pub fn reap_expired(&mut self, now_ms: u64) -> (expired: Vec<(PendingKey, T)>)
        requires
            old(self).wf(),
        ensures
            final(self).wf(),
            final(self)@ == old(self)@.filter(live_at::<T>(now_ms)),
            expired@ == old(self)@.filter(expired_at::<T>(now_ms)).map_values(
                |e: (PendingKey, T, u64)| (e.0, e.1),
            ),
    {
        let ghost orig = self.entries@;
        let mut kept: Vec<(PendingKey, T, u64)> = Vec::new();
        let mut expired: Vec<(PendingKey, T)> = Vec::new();
        let mut rest: Vec<(PendingKey, T, u64)> = Vec::new();
        std::mem::swap(&mut rest, &mut self.entries);
        let ghost n = orig.len();
        let total: usize = rest.len();
        assert(n == total);
        let mut i: usize = 0;
        while rest.len() > 0
            invariant
                i <= n,
                n == orig.len(),
                n == total,
                rest@ == orig.skip(i as int),
                kept@ == orig.take(i as int).filter(live_at::<T>(now_ms)),
                expired@ == orig.take(i as int).filter(expired_at::<T>(now_ms)).map_values(
                    |e: (PendingKey, T, u64)| (e.0, e.1),
                ),
            decreases rest@.len(),
        {
            let e = rest.remove(0);
            assert(e == orig[i as int]);
            proof {
                lemma_filter_step(orig, i as int, live_at::<T>(now_ms));
                lemma_filter_step(orig, i as int, expired_at::<T>(now_ms));
            }
            if e.2 > now_ms {
                kept.push(e);
                assert(orig.take(i + 1).filter(expired_at::<T>(now_ms)).map_values(|e: (PendingKey, T, u64)| (e.0, e.1)) == orig.take(i as int).filter(expired_at::<T>(now_ms)).map_values(|e: (PendingKey, T, u64)| (e.0, e.1)));
            } else {
                let (k, t, _) = e;
                expired.push((k, t));
                assert(orig.take(i + 1).filter(expired_at::<T>(now_ms)).map_values(|e: (PendingKey, T, u64)| (e.0, e.1)) =~= orig.take(i as int).filter(expired_at::<T>(now_ms)).map_values(|e: (PendingKey, T, u64)| (e.0, e.1)).push((k, t)));
            }
            i = i + 1;
        }
        assert(orig.take(n as int) =~= orig);
        self.entries = kept;
        proof {
            lemma_filter_keeps_wf(orig, live_at::<T>(now_ms));
        }
        expired
    }
}

pub proof fn lemma_filter_step<X>(s: Seq<X>, i: int, p: spec_fn(X) -> bool)
    requires
        0 <= i < s.len(),
    ensures
        s.take(i + 1).filter(p) == (if p(s[i]) {
            s.take(i).filter(p).push(s[i])
        } else {
            s.take(i).filter(p)
        }),
{
    reveal(Seq::filter);
    assert(s.take(i + 1).drop_last() =~= s.take(i));
    assert(s.take(i + 1).last() == s[i]);
}

pub proof fn lemma_filter_subset<X>(s: Seq<X>, p: spec_fn(X) -> bool)
    ensures
        forall|k: int| 0 <= k < s.filter(p).len() ==> s.contains(#[trigger] s.filter(p)[k]),
    decreases s.len(),
{
    reveal(Seq::filter);
    if s.len() > 0 {
        let t = s.drop_last();
        lemma_filter_subset(t, p);
        let f = s.filter(p);
        assert forall|k: int| 0 <= k < f.len() implies s.contains(#[trigger] f[k]) by {
            if k < t.filter(p).len() {
                assert(f[k] == t.filter(p)[k]);
                assert(t.contains(t.filter(p)[k]));
                let j = choose|j: int| 0 <= j < t.len() && t[j] == t.filter(p)[k];
                assert(s[j] == t[j]);
            } else {
                assert(f[k] == s.last());
                assert(s[s.len() - 1] == s.last());
            }
        }
    }
}

proof fn lemma_filter_keeps_wf<T>(s: Seq<(PendingKey, T, u64)>, p: spec_fn((PendingKey, T, u64)) -> bool)
    requires
        pending_wf(s),
    ensures
        pending_wf(s.filter(p)),
    decreases s.len(),
{
    reveal(Seq::filter);
    if s.len() > 0 {
        let t = s.drop_last();
        assert(pending_wf(t)) by {
            assert forall|a: int, b: int|
                0 <= a < t.len() && 0 <= b < t.len() && a != b implies (#[trigger] t[a]).0 != (
            #[trigger] t[b]).0 by {
                assert(t[a] == s[a]);
                assert(t[b] == s[b]);
            }
        }
        lemma_filter_keeps_wf(t, p);
        if p(s.last()) {
            let f = t.filter(p);
            lemma_filter_subset(t, p);
            assert forall|a: int, b: int|
                0 <= a < f.len() + 1 && 0 <= b < f.len() + 1 && a != b implies (
            #[trigger] f.push(s.last())[a]).0 != (#[trigger] f.push(s.last())[b]).0 by {
                if a == f.len() || b == f.len() {
                    let other = if a == f.len() { b } else { a };
                    assert(0 <= other < f.len());
                    assert(t.contains(f[other]));
                    let k = choose|k: int| 0 <= k < t.len() && t[k] == f[other];
                    assert(s[k] == t[k]);
                    assert(s[s.len() - 1] == s.last());
                    assert(k != s.len() - 1);
                } else {
                    assert(f.push(s.last())[a] == f[a]);
                    assert(f.push(s.last())[b] == f[b]);
                }
            }
        }
    }
}

/// Velocity-mode re-arm rule: re-arm (run mode + enable) unless the motor
/// is already known to be enabled; with no runtime state to consult, re-arm.
pub fn velocity_needs_rearm(known_enabled: Option<bool>) -> (b: bool)
    ensures
        b == match known_enabled {
            Some(e) => !e,
            None => true,
        },
{
    match known_enabled {
        Some(e) => !e,
        None => true,
    }
}

/// After a velocity setpoint: should the motor be recorded as enabled?
pub fn velocity_marks_enabled(sent_ok: bool, rearmed: bool, role_is_empty: bool) -> (b: bool)
    ensures
        b == (sent_ok && rearmed && !role_is_empty),
{
    sent_ok && rearmed && !role_is_empty
}

/// ENOBUFS: the kernel transmit queue is full (expected for an absent motor).
pub fn is_tx_queue_full(raw_os_error: Option<i32>) -> (b: bool)
    ensures
        b == (raw_os_error == Some(105i32)),
{
    match raw_os_error {
        Some(code) => code == 105,
        None => false,
    }
}

} // verus!
