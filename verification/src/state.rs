//! The daemon's runtime bookkeeping tables: per-motor boot state, the set
//! of motors commanded enabled, the CAN ids seen on each bus, the boot
//! orchestrator's attempted set and the control lock.
use vstd::prelude::*;

use crate::boot_state::BootStates;
use crate::clock;
use crate::control_lock::{ControlGrant, ControlLock};
use crate::inventory::{dev_bus, dev_id, Device, Inventory};
use crate::rolemap::{move_key, RoleSet};
use crate::text::{copy_string, lemma_seq_lt_irrefl, lemma_seq_lt_total, lemma_seq_lt_trans, seq_lt, str_eq, str_lt};

verus! {

/// When and how a `(can_bus, can_id)` was observed on the wire.
#[derive(Debug)]
pub struct SeenInfo {
    pub first_seen_ms: i64,
    pub last_seen_ms: i64,
    /// `passive` | `active_scan` | `both`
    pub source: String,
}

/// A CAN id seen on a bus that no inventory row claims.
#[derive(Debug)]
pub struct UnassignedDevice {
    pub bus: String,
    pub can_id: u8,
    /// `passive` | `active_scan` | `both`
    pub source: String,
    pub first_seen_ms: i64,
    pub last_seen_ms: i64,
    pub family_hint: Option<String>,
}

/// `(bus, can_id, first_seen_ms, last_seen_ms, source)` of one observation.
pub open spec fn row_of(e: (String, u8, SeenInfo)) -> (Seq<char>, u8, i64, i64, Seq<char>) {
    (e.0@, e.1, e.2.first_seen_ms, e.2.last_seen_ms, e.2.source@)
}

pub open spec fn device_row(d: UnassignedDevice) -> (Seq<char>, u8, i64, i64, Seq<char>) {
    (d.bus@, d.can_id, d.first_seen_ms, d.last_seen_ms, d.source@)
}

/// Order of observation keys: by bus name, then by CAN id.
pub open spec fn key_lt(b1: Seq<char>, i1: u8, b2: Seq<char>, i2: u8) -> bool {
    seq_lt(b1, b2) || (b1 == b2 && i1 < i2)
}

/// Rows in strictly increasing key order (so no key twice).
pub open spec fn rows_sorted(r: Seq<(Seq<char>, u8, i64, i64, Seq<char>)>) -> bool {
    forall|i: int, j: int|
        0 <= i < j < r.len() ==> key_lt((#[trigger] r[i]).0, r[i].1, (#[trigger] r[j]).0, r[j].1)
}

/// Row `r` after another passive sighting at `now`: the last-seen time
/// moves, and an active-scan-only row becomes `both`.
pub open spec fn refreshed(
    r: (Seq<char>, u8, i64, i64, Seq<char>),
    now: i64,
) -> (Seq<char>, u8, i64, i64, Seq<char>) {
    (r.0, r.1, r.2, now, if r.4 == "active_scan"@ {
        "both"@
    } else {
        r.4
    })
}

/// Is some inventory row at this bus address?
pub open spec fn address_known(devs: Seq<Device>, bus: Seq<char>, can_id: u8) -> bool {
    exists|i: int| 0 <= i < devs.len() && dev_bus(#[trigger] devs[i]) == bus && dev_id(devs[i]) == can_id
}

pub open spec fn unassigned_row(devs: Seq<Device>) -> spec_fn((Seq<char>, u8, i64, i64, Seq<char>)) -> bool {
    |r: (Seq<char>, u8, i64, i64, Seq<char>)| !address_known(devs, r.0, r.1)
}

pub open spec fn has_key(rows: Seq<(Seq<char>, u8, i64, i64, Seq<char>)>, bus: Seq<char>, can_id: u8) -> bool {
    exists|i: int| 0 <= i < rows.len() && rows[i].0 == bus && rows[i].1 == can_id
}

/// `after` is `before` with a passive sighting of `(bus, can_id)` at `now`
/// recorded: the known row refreshed, or a new `passive` row inserted.
pub open spec fn recorded(
    before: Seq<(Seq<char>, u8, i64, i64, Seq<char>)>,
    after: Seq<(Seq<char>, u8, i64, i64, Seq<char>)>,
    bus: Seq<char>,
    can_id: u8,
    now: i64,
) -> bool {
    if has_key(before, bus, can_id) {
        exists|i: int|
            0 <= i < before.len() && before[i].0 == bus && before[i].1 == can_id && after
                == before.update(i, refreshed(before[i], now))
    } else {
        exists|p: int| 0 <= p <= before.len() && after == before.insert(p, (bus, can_id, now, now, "passive"@))
    }
}

proof fn lemma_key_lt_trans(b1: Seq<char>, i1: u8, b2: Seq<char>, i2: u8, b3: Seq<char>, i3: u8)
    requires
        key_lt(b1, i1, b2, i2),
        key_lt(b2, i2, b3, i3),
    ensures
        key_lt(b1, i1, b3, i3),
{
    if seq_lt(b1, b2) && seq_lt(b2, b3) {
        lemma_seq_lt_trans(b1, b2, b3);
    }
}

proof fn lemma_key_lt_total(b1: Seq<char>, i1: u8, b2: Seq<char>, i2: u8)
    ensures
        key_lt(b1, i1, b2, i2) || key_lt(b2, i2, b1, i1) || (b1 == b2 && i1 == i2),
{
    lemma_seq_lt_total(b1, b2);
}

proof fn lemma_key_lt_irrefl(b: Seq<char>, i: u8)
    ensures
        !key_lt(b, i, b, i),
{
    lemma_seq_lt_irrefl(b);
}

/// Observed `(bus, can_id)` pairs, kept in key order.
pub struct SeenTable {
    entries: Vec<(String, u8, SeenInfo)>,
}

impl SeenTable {
    /// The observations, in key order.
    pub closed spec fn view(self) -> Seq<(Seq<char>, u8, i64, i64, Seq<char>)> {
        self.entries@.map_values(|e: (String, u8, SeenInfo)| row_of(e))
    }

    pub fn new() -> (t: SeenTable)
        ensures
            t@ == Seq::<(Seq<char>, u8, i64, i64, Seq<char>)>::empty(),
    {
        let t = SeenTable { entries: Vec::new() };
        assert(t@ =~= Seq::<(Seq<char>, u8, i64, i64, Seq<char>)>::empty());
        t
    }

    fn key_before(&self, i: usize, bus: &str, can_id: u8) -> (b: bool)
        requires
            i < self@.len(),
        ensures
            b == key_lt(self@[i as int].0, self@[i as int].1, bus@, can_id),
    {
        let e = &self.entries[i];
        str_lt(e.0.as_str(), bus) || (str_eq(e.0.as_str(), bus) && e.1 < can_id)
    }

    /// Record a passive sighting of `(iface, can_id)` at `now_ms`: refresh
    /// a known row, or add a `passive` row in key order.
    pub fn record_passive(&mut self, iface: &str, can_id: u8, now_ms: i64)
        requires
            rows_sorted(old(self)@),
        ensures
            rows_sorted(final(self)@),
            recorded(old(self)@, final(self)@, iface@, can_id, now_ms),
    {
        let ghost rows0 = self@;
        let mut i: usize = 0;
        while i < self.entries.len() && self.key_before(i, iface, can_id)
            invariant
                self@ == rows0,
                rows_sorted(rows0),
                i <= rows0.len(),
                self.entries@.len() == rows0.len(),
                forall|j: int| 0 <= j < i ==> key_lt((#[trigger] rows0[j]).0, rows0[j].1, iface@, can_id),
            decreases rows0.len() - i,
        {
            i = i + 1;
        }
        let n = self.entries.len();
        if i < n && str_eq(self.entries[i].0.as_str(), iface) && self.entries[i].1 == can_id {
            let (b, id, mut info) = self.entries.remove(i);
            info.last_seen_ms = now_ms;
            if str_eq(info.source.as_str(), "active_scan") {
                info.source = copy_string("both");
            }
            self.entries.insert(i, (b, id, info));
            proof {
                assert(self@ =~= rows0.update(i as int, refreshed(rows0[i as int], now_ms)));
                assert forall|a: int, c: int| 0 <= a < c < self@.len() implies key_lt(
                    (#[trigger] self@[a]).0,
                    self@[a].1,
                    (#[trigger] self@[c]).0,
                    self@[c].1,
                ) by {
                    assert(key_lt(rows0[a].0, rows0[a].1, rows0[c].0, rows0[c].1));
                }
            }
        } else {
            let ghost new_row = (iface@, can_id, now_ms, now_ms, "passive"@);
            let info = SeenInfo {
                first_seen_ms: now_ms,
                last_seen_ms: now_ms,
                source: copy_string("passive"),
            };
            self.entries.insert(i, (copy_string(iface), can_id, info));
            proof {
                assert(self@ =~= rows0.insert(i as int, new_row));
                if i < n {
                    lemma_key_lt_total(rows0[i as int].0, rows0[i as int].1, iface@, can_id);
                    assert(key_lt(iface@, can_id, rows0[i as int].0, rows0[i as int].1));
                }
                assert forall|a: int, c: int| 0 <= a < c < self@.len() implies key_lt(
                    (#[trigger] self@[a]).0,
                    self@[a].1,
                    (#[trigger] self@[c]).0,
                    self@[c].1,
                ) by {
                    if c < i {
                        assert(key_lt(rows0[a].0, rows0[a].1, rows0[c].0, rows0[c].1));
                    } else if c == i {
                        assert(key_lt(rows0[a].0, rows0[a].1, iface@, can_id));
                    } else if a < i {
                        assert(key_lt(rows0[a].0, rows0[a].1, iface@, can_id));
                        if c - 1 > i {
                            assert(key_lt(rows0[i as int].0, rows0[i as int].1, rows0[c - 1].0, rows0[c - 1].1));
                            lemma_key_lt_trans(iface@, can_id, rows0[i as int].0, rows0[i as int].1, rows0[c - 1].0, rows0[c - 1].1);
                        }
                        lemma_key_lt_trans(rows0[a].0, rows0[a].1, iface@, can_id, rows0[c - 1].0, rows0[c - 1].1);
                    } else if a == i {
                        if c - 1 > i {
                            assert(key_lt(rows0[i as int].0, rows0[i as int].1, rows0[c - 1].0, rows0[c - 1].1));
                            lemma_key_lt_trans(iface@, can_id, rows0[i as int].0, rows0[i as int].1, rows0[c - 1].0, rows0[c - 1].1);
                        }
                    } else {
                        assert(key_lt(rows0[a - 1].0, rows0[a - 1].1, rows0[c - 1].0, rows0[c - 1].1));
                    }
                }
                assert forall|j: int| 0 <= j < rows0.len() && rows0[j].0 == iface@ implies rows0[j].1 != can_id by {
                    if j < i {
                        lemma_key_lt_irrefl(iface@, can_id);
                    } else if j > i {
                        assert(key_lt(rows0[i as int].0, rows0[i as int].1, rows0[j].0, rows0[j].1));
                        if rows0[j].1 == can_id {
                            lemma_key_lt_trans(iface@, can_id, rows0[i as int].0, rows0[i as int].1, iface@, can_id);
                            lemma_key_lt_irrefl(iface@, can_id);
                        }
                    }
                }
            }
        }
    }

    /// Observations at addresses no inventory row claims, in `(bus, can_id)`
    /// order.
    pub fn list_unassigned(&self, inv: &Inventory) -> (out: Vec<UnassignedDevice>)
        ensures
            out@.map_values(|d: UnassignedDevice| device_row(d)) == self@.filter(
                unassigned_row(inv.devices@),
            ),
    {
        let ghost rows = self@;
        let ghost p = unassigned_row(inv.devices@);
        let mut out: Vec<UnassignedDevice> = Vec::new();
        let mut i: usize = 0;
        while i < self.entries.len()
            invariant
                rows == self@,
                i <= rows.len(),
                self.entries@.len() == rows.len(),
                p == unassigned_row(inv.devices@),
                out@.map_values(|d: UnassignedDevice| device_row(d)) == rows.take(i as int).filter(p),
            decreases rows.len() - i,
        {
            proof {
                crate::bus::lemma_filter_step(rows, i as int, p);
            }
            let e = &self.entries[i];
            assert(rows[i as int] == row_of(self.entries@[i as int]));
            if inv.by_can_id(e.0.as_str(), e.1).is_none() {
                let ghost before = out@;
                out.push(
                    UnassignedDevice {
                        bus: copy_string(e.0.as_str()),
                        can_id: e.1,
                        source: copy_string(e.2.source.as_str()),
                        first_seen_ms: e.2.first_seen_ms,
                        last_seen_ms: e.2.last_seen_ms,
                        family_hint: None,
                    },
                );
                assert(out@.map_values(|d: UnassignedDevice| device_row(d)) =~= before.map_values(
                    |d: UnassignedDevice| device_row(d),
                ).push(rows[i as int]));
            } else {
                assert(!p(rows[i as int]));
            }
            i = i + 1;
        }
        assert(rows.take(rows.len() as int) =~= rows);
        out
    }
}

/// Filtering keeps key order: the unassigned list is sorted by
/// `(bus, can_id)` whenever the table is.
pub proof fn law_filter_keeps_order(
    rows: Seq<(Seq<char>, u8, i64, i64, Seq<char>)>,
    p: spec_fn((Seq<char>, u8, i64, i64, Seq<char>)) -> bool,
)
    requires
        rows_sorted(rows),
    ensures
        rows_sorted(rows.filter(p)),
    decreases rows.len(),
{
    reveal(Seq::filter);
    if rows.len() > 0 {
        let t = rows.drop_last();
        assert(rows_sorted(t)) by {
            assert forall|i: int, j: int| 0 <= i < j < t.len() implies key_lt(
                (#[trigger] t[i]).0,
                t[i].1,
                (#[trigger] t[j]).0,
                t[j].1,
            ) by {
                assert(t[i] == rows[i] && t[j] == rows[j]);
            }
        }
        law_filter_keeps_order(t, p);
        if p(rows.last()) {
            let f = t.filter(p);
            crate::bus::lemma_filter_subset(t, p);
            assert forall|i: int, j: int| 0 <= i < j < f.push(rows.last()).len() implies key_lt(
                (#[trigger] f.push(rows.last())[i]).0,
                f.push(rows.last())[i].1,
                (#[trigger] f.push(rows.last())[j]).0,
                f.push(rows.last())[j].1,
            ) by {
                if j == f.len() {
                    assert(t.contains(f[i]));
                    let k = choose|k: int| 0 <= k < t.len() && t[k] == f[i];
                    assert(rows[k] == t[k]);
                    assert(rows[rows.len() - 1] == rows.last());
                }
            }
        }
    }
}

/// No `(bus, can_id)` is recorded twice.
pub proof fn law_seen_keys_unique(rows: Seq<(Seq<char>, u8, i64, i64, Seq<char>)>, i: int, j: int)
    requires
        rows_sorted(rows),
        0 <= i < rows.len(),
        0 <= j < rows.len(),
        i != j,
    ensures
        !(rows[i].0 == rows[j].0 && rows[i].1 == rows[j].1),
{
    if i < j {
        assert(key_lt(rows[i].0, rows[i].1, rows[j].0, rows[j].1));
    } else {
        assert(key_lt(rows[j].0, rows[j].1, rows[i].0, rows[i].1));
    }
    lemma_key_lt_irrefl(rows[i].0, rows[i].1);
}

/// The runtime tables shared by the request handlers and the CAN workers.
pub struct AppState {
    /// Per-motor boot-time gate state. Not persisted: a power cycle
    /// brings every motor back to `Unknown`.
    pub boot_state: BootStates,
    /// Motors commanded enabled (inserted on a successful enable, removed
    /// on a successful stop). Tracks intent, not the wire.
    pub enabled: RoleSet,
    /// CAN ids observed on each bus.
    pub seen_can_ids: SeenTable,
    /// Roles the boot orchestrator has processed in this daemon lifetime.
    pub boot_orchestrator_attempted: RoleSet,
    /// Roles auto-recovery has been attempted for in this daemon lifetime.
    pub auto_recovery_attempted: RoleSet,
    /// Which session may issue mutating commands.
    pub control_lock: ControlLock,
}

impl AppState {
    pub open spec fn wf(self) -> bool {
        &&& self.boot_state.wf()
        &&& self.enabled.wf()
        &&& self.boot_orchestrator_attempted.wf()
        &&& self.auto_recovery_attempted.wf()
        &&& rows_sorted(self.seen_can_ids@)
    }

    /// Empty tables, lock free.
    pub fn new() -> (s: AppState)
        ensures
            s.wf(),
            s.boot_state@ == Map::<Seq<char>, crate::boot_state::BootState>::empty(),
            s.enabled@ == Set::<Seq<char>>::empty(),
            s.seen_can_ids@ == Seq::<(Seq<char>, u8, i64, i64, Seq<char>)>::empty(),
            s.boot_orchestrator_attempted@ == Set::<Seq<char>>::empty(),
            s.auto_recovery_attempted@ == Set::<Seq<char>>::empty(),
            s.control_lock@ is None,
    {
        AppState {
            boot_state: BootStates::new(),
            enabled: RoleSet::new(),
            seen_can_ids: SeenTable::new(),
            boot_orchestrator_attempted: RoleSet::new(),
            auto_recovery_attempted: RoleSet::new(),
            control_lock: ControlLock::new(),
        }
    }

    /// Mark a motor as enabled on the bus. Idempotent.
    pub fn mark_enabled(&mut self, role: &str)
        requires
            old(self).wf(),
        ensures
            final(self).wf(),
            final(self).enabled@ == old(self).enabled@.insert(role@),
            final(self).boot_state@ == old(self).boot_state@,
            final(self).seen_can_ids@ == old(self).seen_can_ids@,
            final(self).boot_orchestrator_attempted@ == old(self).boot_orchestrator_attempted@,
            final(self).auto_recovery_attempted@ == old(self).auto_recovery_attempted@,
            final(self).control_lock@ == old(self).control_lock@,
    {
        let _ = self.enabled.insert(role);
    }

    /// Clear a motor's enabled bit. Idempotent.
    pub fn mark_stopped(&mut self, role: &str)
        requires
            old(self).wf(),
        ensures
            final(self).wf(),
            final(self).enabled@ == old(self).enabled@.remove(role@),
            final(self).boot_state@ == old(self).boot_state@,
            final(self).seen_can_ids@ == old(self).seen_can_ids@,
            final(self).boot_orchestrator_attempted@ == old(self).boot_orchestrator_attempted@,
            final(self).auto_recovery_attempted@ == old(self).auto_recovery_attempted@,
            final(self).control_lock@ == old(self).control_lock@,
    {
        let _ = self.enabled.remove(role);
    }

    /// Is the motor commanded enabled?
    pub fn is_enabled(&self, role: &str) -> (b: bool)
        requires
            self.wf(),
        ensures
            b == self.enabled@.contains(role@),
    {
        self.enabled.contains(role)
    }

    /// Record a CAN id seen on `iface` from passive traffic at `now_ms`.
    pub fn record_passive_seen_at(&mut self, iface: &str, can_id: u8, now_ms: i64)
        requires
            old(self).wf(),
        ensures
            final(self).wf(),
            final(self).enabled@ == old(self).enabled@,
            final(self).boot_state@ == old(self).boot_state@,
            final(self).boot_orchestrator_attempted@ == old(self).boot_orchestrator_attempted@,
            final(self).auto_recovery_attempted@ == old(self).auto_recovery_attempted@,
            final(self).control_lock@ == old(self).control_lock@,
            recorded(old(self).seen_can_ids@, final(self).seen_can_ids@, iface@, can_id, now_ms),
    {
        self.seen_can_ids.record_passive(iface, can_id, now_ms);
    }

    /// [`Self::record_passive_seen_at`] stamped with the wall clock.
    pub fn record_passive_seen(&mut self, iface: &str, can_id: u8)
        requires
            old(self).wf(),
        ensures
            final(self).wf(),
            final(self).enabled@ == old(self).enabled@,
            final(self).boot_state@ == old(self).boot_state@,
            final(self).boot_orchestrator_attempted@ == old(self).boot_orchestrator_attempted@,
            final(self).auto_recovery_attempted@ == old(self).auto_recovery_attempted@,
            final(self).control_lock@ == old(self).control_lock@,
            exists|now: i64|
                recorded(old(self).seen_can_ids@, final(self).seen_can_ids@, iface@, can_id, now),
    {
        let now = clock::now_unix_ms();
        self.record_passive_seen_at(iface, can_id, now);
    }

    /// Cooperative single-operator gate (see [`ControlLock::ensure_control`]).
    pub fn ensure_control(&mut self, session_id: &str) -> (r: Result<ControlGrant, String>)
        requires
            old(self).wf(),
        ensures
            final(self).wf(),
            final(self).enabled@ == old(self).enabled@,
            final(self).boot_state@ == old(self).boot_state@,
            final(self).seen_can_ids@ == old(self).seen_can_ids@,
            final(self).boot_orchestrator_attempted@ == old(self).boot_orchestrator_attempted@,
            final(self).auto_recovery_attempted@ == old(self).auto_recovery_attempted@,
            r is Ok <==> crate::control_lock::ensure_passes(old(self).control_lock@, session_id@),
            match old(self).control_lock@ {
                Some((h, t)) => final(self).control_lock@ == old(self).control_lock@ && (r matches Err(
                    e,
                ) ==> e@ == h),
                None => if session_id@.len() == 0 {
                    final(self).control_lock@ is None
                } else {
                    crate::control_lock::holds(final(self).control_lock@, session_id@)
                },
            },
    {
        self.control_lock.ensure_control(session_id)
    }

    /// A motor was renamed: carry its boot state and enabled bit over.
    pub fn migrate_role(&mut self, role: &str, new_role: &str)
        requires
            old(self).wf(),
        ensures
            final(self).wf(),
            final(self).boot_state@ == move_key(old(self).boot_state@, role@, new_role@),
            final(self).enabled@ == if old(self).enabled@.contains(role@) {
                old(self).enabled@.remove(role@).insert(new_role@)
            } else {
                old(self).enabled@
            },
            final(self).seen_can_ids@ == old(self).seen_can_ids@,
            final(self).boot_orchestrator_attempted@ == old(self).boot_orchestrator_attempted@,
            final(self).auto_recovery_attempted@ == old(self).auto_recovery_attempted@,
            final(self).control_lock@ == old(self).control_lock@,
    {
        self.boot_state.rename_role(role, new_role);
        self.enabled.rename_role(role, new_role);
    }
}

} // verus!
