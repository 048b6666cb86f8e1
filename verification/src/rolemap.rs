//! Small role-keyed tables (role string → value) used for the per-motor
//! runtime state: boot-time gate state, the enabled set and the
//! idempotency sets of the boot flows.
use vstd::prelude::*;

use crate::text::{copy_string, str_eq};

verus! {

/// Table from motor role to a value. Each role appears at most once.
pub struct RoleMap<V> {
    entries: Vec<(String, V)>,
}

/// No role is stored twice in `s`.
pub open spec fn entries_wf<V>(s: Seq<(String, V)>) -> bool {
    forall|i: int, j: int|
        0 <= i < s.len() && 0 <= j < s.len() && i != j ==> (#[trigger] s[i]).0@ != (
        #[trigger] s[j]).0@
}

pub open spec fn entry_at<V>(s: Seq<(String, V)>, i: int, r: Seq<char>) -> bool {
    0 <= i < s.len() && s[i].0@ == r
}

/// The entries as a map from role to value.
pub open spec fn entries_map<V>(s: Seq<(String, V)>) -> Map<Seq<char>, V> {
    Map::new(
        |r: Seq<char>| exists|i: int| entry_at(s, i, r),
        |r: Seq<char>| s[choose|i: int| entry_at(s, i, r)].1,
    )
}

proof fn lemma_entry<V>(s: Seq<(String, V)>, i: int)
    requires
        entries_wf(s),
        0 <= i < s.len(),
    ensures
        entries_map(s).dom().contains(s[i].0@),
        entries_map(s)[s[i].0@] == s[i].1,
{
    let r = s[i].0@;
    assert(entry_at(s, i, r));
    let j = choose|j: int| entry_at(s, j, r);
    assert(entry_at(s, j, r));
    if j != i {
        assert(s[i].0@ != s[j].0@);
    }
}

/// `m` with the entry under `from` moved to `to` (unchanged when `from` is absent).
pub open spec fn move_key<V>(m: Map<Seq<char>, V>, from: Seq<char>, to: Seq<char>) -> Map<Seq<char>, V> {
    if m.dom().contains(from) {
        m.remove(from).insert(to, m[from])
    } else {
        m
    }
}

impl<V> RoleMap<V> {
    /// No role is stored twice.
    pub closed spec fn wf(self) -> bool {
        entries_wf(self.entries@)
    }

    /// The table as a map from role to value.
    pub closed spec fn view(self) -> Map<Seq<char>, V> {
        entries_map(self.entries@)
    }

    pub fn new() -> (m: RoleMap<V>)
        ensures
            m.wf(),
            m@ == Map::<Seq<char>, V>::empty(),
    {
        let m = RoleMap { entries: Vec::new() };
        assert(m@ =~= Map::<Seq<char>, V>::empty());
        m
    }

    fn find(&self, role: &str) -> (r: Option<usize>)
        requires
            self.wf(),
        ensures
            match r {
                Some(i) => entry_at(self.entries@, i as int, role@),
                None => !self@.dom().contains(role@),
            },
    {
        let mut i: usize = 0;
        while i < self.entries.len()
            invariant
                i <= self.entries@.len(),
                forall|j: int| 0 <= j < i ==> !entry_at(self.entries@, j, role@),
            decreases self.entries@.len() - i,
        {
            if str_eq(self.entries[i].0.as_str(), role) {
                return Some(i);
            }
            i = i + 1;
        }
        None
    }

    /// Number of roles in the table.
    pub fn len(&self) -> (n: usize)
        requires
            self.wf(),
        ensures
            n == self@.dom().len(),
    {
        proof {
            self.lemma_len();
        }
        self.entries.len()
    }

    proof fn lemma_len(self)
        requires
            self.wf(),
        ensures
            self@.dom().len() == self.entries@.len(),
            self@.dom().finite(),
    {
        let keys = self.entries@.map_values(|e: (String, V)| e.0@);
        assert(keys.no_duplicates()) by {
            assert forall|i: int, j: int|
                0 <= i < keys.len() && 0 <= j < keys.len() && i != j implies keys[i]
                != keys[j] by {
                assert(self.entries@[i].0@ != self.entries@[j].0@);
            }
        }
        assert(self@.dom() =~= keys.to_set()) by {
            assert forall|r: Seq<char>| self@.dom().contains(r) implies keys.to_set().contains(
                r,
            ) by {
                let i = choose|i: int| entry_at(self.entries@, i, r);
                assert(keys[i] == r);
            }
            assert forall|r: Seq<char>| keys.to_set().contains(r) implies self@.dom().contains(
                r,
            ) by {
                let i = choose|i: int| 0 <= i < keys.len() && keys[i] == r;
                assert(entry_at(self.entries@, i, r));
            }
        }
        keys.unique_seq_to_set();
    }

    pub fn contains_key(&self, role: &str) -> (b: bool)
        requires
            self.wf(),
        ensures
            b == self@.dom().contains(role@),
    {
        match self.find(role) {
            Some(i) => {
                proof {
                    lemma_entry(self.entries@, i as int);
                }
                true
            },
            None => false,
        }
    }

    /// Value stored for `role`, if any.
    pub fn get(&self, role: &str) -> (r: Option<&V>)
        requires
            self.wf(),
        ensures
            match r {
                Some(v) => self@.dom().contains(role@) && *v == self@[role@],
                None => !self@.dom().contains(role@),
            },
    {
        match self.find(role) {
            Some(i) => {
                proof {
                    lemma_entry(self.entries@, i as int);
                }
                Some(&self.entries[i].1)
            },
            None => None,
        }
    }

    /// Store `v` for `role`, replacing any previous value.
    pub fn insert(&mut self, role: &str, v: V)
        requires
            old(self).wf(),
        ensures
            final(self).wf(),
            final(self)@ == old(self)@.insert(role@, v),
    {
        let ghost old_map = self@;
        let found = self.find(role);
        match found {
            Some(i) => {
                let key = copy_string(role);
                let ghost old_entries = self.entries@;
                self.entries.set(i, (key, v));
                proof {
                    assert forall|a: int, b: int|
                        0 <= a < self.entries@.len() && 0 <= b < self.entries@.len() && a
                            != b implies (#[trigger] self.entries@[a]).0@ != (
                    #[trigger] self.entries@[b]).0@ by {
                        if a != i as int && b != i as int {
                            assert(old_entries[a] == self.entries@[a]);
                            assert(old_entries[b] == self.entries@[b]);
                        } else if a == i as int {
                            assert(old_entries[b] == self.entries@[b]);
                            assert(old_entries[a].0@ == role@);
                        } else {
                            assert(old_entries[a] == self.entries@[a]);
                            assert(old_entries[b].0@ == role@);
                        }
                    }
                    self.lemma_view_after_set(old_entries, old_map, i as int, role@, v);
                }
            },
            None => {
                let key = copy_string(role);
                let ghost old_entries = self.entries@;
                self.entries.push((key, v));
                proof {
                    assert forall|a: int, b: int|
                        0 <= a < self.entries@.len() && 0 <= b < self.entries@.len() && a
                            != b implies (#[trigger] self.entries@[a]).0@ != (
                    #[trigger] self.entries@[b]).0@ by {
                        let n = old_entries.len() as int;
                        if a < n && b < n {
                            assert(old_entries[a] == self.entries@[a]);
                            assert(old_entries[b] == self.entries@[b]);
                        } else if a == n {
                            assert(old_entries[b] == self.entries@[b]);
                            if old_entries[b].0@ == role@ {
                                assert(old_map.dom().contains(role@)) by {
                                    assert(entry_at(old_entries, b, role@));
                                }
                            }
                        } else {
                            assert(old_entries[a] == self.entries@[a]);
                            if old_entries[a].0@ == role@ {
                                assert(old_map.dom().contains(role@)) by {
                                    assert(entry_at(old_entries, a, role@));
                                }
                            }
                        }
                    }
                    self.lemma_view_after_push(old_entries, old_map, role@, v);
                }
            },
        }
    }

    proof fn lemma_view_after_set(
        self,
        old_entries: Seq<(String, V)>,
        old_map: Map<Seq<char>, V>,
        i: int,
        role: Seq<char>,
        v: V,
    )
        requires
            self.wf(),
            0 <= i < old_entries.len(),
            old_entries[i].0@ == role,
            self.entries@ == old_entries.update(i, (self.entries@[i].0, v)),
            self.entries@[i].0@ == role,
            old_map == entries_map(old_entries),
            entries_wf(old_entries),
        ensures
            self@ == old_map.insert(role, v),
    {
        assert forall|r: Seq<char>| #[trigger]
            self@.dom().contains(r) <==> old_map.insert(role, v).dom().contains(r) by {
            if self@.dom().contains(r) {
                let k = choose|k: int| entry_at(self.entries@, k, r);
                if k != i {
                    assert(entry_at(old_entries, k, r));
                }
            }
            if old_map.dom().contains(r) {
                let k = choose|k: int| entry_at(old_entries, k, r);
                if k != i {
                    assert(entry_at(self.entries@, k, r));
                } else {
                    assert(entry_at(self.entries@, i, r));
                }
            }
            if r == role {
                assert(entry_at(self.entries@, i, r));
            }
        }
        assert forall|r: Seq<char>| #[trigger] self@.dom().contains(r) implies self@[r]
            == old_map.insert(role, v)[r] by {
            let k = choose|k: int| entry_at(self.entries@, k, r);
            assert(entry_at(self.entries@, k, r));
            lemma_entry(self.entries@, k);
            if k != i {
                assert(entry_at(old_entries, k, r));
                lemma_entry(old_entries, k);
            }
        }
        assert(self@ =~= old_map.insert(role, v));
    }

    proof fn lemma_view_after_push(
        self,
        old_entries: Seq<(String, V)>,
        old_map: Map<Seq<char>, V>,
        role: Seq<char>,
        v: V,
    )
        requires
            self.wf(),
            self.entries@.len() == old_entries.len() + 1,
            forall|k: int| 0 <= k < old_entries.len() ==> self.entries@[k] == old_entries[k],
            self.entries@[old_entries.len() as int].0@ == role,
            self.entries@[old_entries.len() as int].1 == v,
            old_map == entries_map(old_entries),
            entries_wf(old_entries),
        ensures
            self@ == old_map.insert(role, v),
    {
        let n = old_entries.len() as int;
        assert forall|r: Seq<char>| #[trigger]
            self@.dom().contains(r) <==> old_map.insert(role, v).dom().contains(r) by {
            if self@.dom().contains(r) {
                let k = choose|k: int| entry_at(self.entries@, k, r);
                if k != n {
                    assert(entry_at(old_entries, k, r));
                }
            }
            if old_map.dom().contains(r) {
                let k = choose|k: int| entry_at(old_entries, k, r);
                assert(entry_at(self.entries@, k, r));
            }
            if r == role {
                assert(entry_at(self.entries@, n, r));
            }
        }
        assert forall|r: Seq<char>| #[trigger] self@.dom().contains(r) implies self@[r]
            == old_map.insert(role, v)[r] by {
            let k = choose|k: int| entry_at(self.entries@, k, r);
            assert(entry_at(self.entries@, k, r));
            lemma_entry(self.entries@, k);
            if k != n {
                assert(entry_at(old_entries, k, r));
                lemma_entry(old_entries, k);
            }
        }
        assert(self@ =~= old_map.insert(role, v));
    }

    /// Drop `role` from the table, handing back its value (`None` when absent).
    pub fn remove(&mut self, role: &str) -> (r: Option<V>)
        requires
            old(self).wf(),
        ensures
            final(self).wf(),
            final(self)@ == old(self)@.remove(role@),
            match r {
                Some(v) => old(self)@.dom().contains(role@) && v == old(self)@[role@],
                None => !old(self)@.dom().contains(role@),
            },
    {
        let ghost old_map = self@;
        match self.find(role) {
            None => {
                assert(self@ =~= old_map.remove(role@));
                None
            },
            Some(i) => {
                let ghost old_entries = self.entries@;
                proof {
                    lemma_entry(old_entries, i as int);
                }
                let (_, v) = self.entries.remove(i);
                proof {
                    assert forall|a: int, b: int|
                        0 <= a < self.entries@.len() && 0 <= b < self.entries@.len() && a
                            != b implies (#[trigger] self.entries@[a]).0@ != (
                    #[trigger] self.entries@[b]).0@ by {
                        let oa = if a < i { a } else { a + 1 };
                        let ob = if b < i { b } else { b + 1 };
                        assert(self.entries@[a] == old_entries[oa]);
                        assert(self.entries@[b] == old_entries[ob]);
                    }
                    assert forall|r: Seq<char>| #[trigger]
                        self@.dom().contains(r) <==> old_map.remove(role@).dom().contains(r) by {
                        if self@.dom().contains(r) {
                            let k = choose|k: int| entry_at(self.entries@, k, r);
                            let ok = if k < i { k } else { k + 1 };
                            assert(self.entries@[k] == old_entries[ok]);
                            assert(entry_at(old_entries, ok, r));
                            assert(ok != i);
                            if r == role@ {
                                assert(old_entries[i as int].0@ == r);
                            }
                        }
                        if old_map.dom().contains(r) && r != role@ {
                            let k = choose|k: int| entry_at(old_entries, k, r);
                            assert(k != i);
                            let nk = if k < i { k } else { k - 1 };
                            assert(self.entries@[nk] == old_entries[k]);
                            assert(entry_at(self.entries@, nk, r));
                        }
                    }
                    assert forall|r: Seq<char>| #[trigger] self@.dom().contains(r) implies self@[r]
                        == old_map.remove(role@)[r] by {
                        let k = choose|k: int| entry_at(self.entries@, k, r);
                        assert(entry_at(self.entries@, k, r));
                        lemma_entry(self.entries@, k);
                        let ok = if k < i { k } else { k + 1 };
                        assert(self.entries@[k] == old_entries[ok]);
                        assert(entry_at(old_entries, ok, r));
                        lemma_entry(old_entries, ok);
                    }
                    assert(self@ =~= old_map.remove(role@));
                }
                Some(v)
            },
        }
    }
}

/// Entries of `m` whose value (a deadline) lies after `now`.
pub open spec fn not_due(m: Map<Seq<char>, u64>, now: u64) -> Map<Seq<char>, u64> {
    Map::new(|r: Seq<char>| m.dom().contains(r) && m[r] > now, |r: Seq<char>| m[r])
}

/// Roles of `m` whose value (a deadline) is at or before `now`.
pub open spec fn due_set(m: Map<Seq<char>, u64>, now: u64) -> Set<Seq<char>> {
    Set::new(|r: Seq<char>| m.dom().contains(r) && m[r] <= now)
}

/// The roles of a list of names, as character sequences.
pub open spec fn name_views(v: Seq<String>) -> Seq<Seq<char>> {
    v.map_values(|s: String| s@)
}

impl RoleMap<u64> {
    /// Remove every entry whose deadline is at or before `now` and return
    /// those roles, each once, in table order.
    pub fn take_due(&mut self, now: u64) -> (due: Vec<String>)
        requires
            old(self).wf(),
        ensures
            final(self).wf(),
            final(self)@ == not_due(old(self)@, now),
            name_views(due@).no_duplicates(),
            name_views(due@).to_set() == due_set(old(self)@, now),
    {
        let ghost old_entries = self.entries@;
        let ghost old_map = self@;
        let mut kept: Vec<(String, u64)> = Vec::new();
        let mut due: Vec<String> = Vec::new();
        let ghost mut kidx: Seq<int> = Seq::empty();
        let ghost mut didx: Seq<int> = Seq::empty();
        let mut i: usize = 0;
        while i < self.entries.len()
            invariant
                self.entries@ == old_entries,
                entries_wf(old_entries),
                old_map == entries_map(old_entries),
                i <= old_entries.len(),
                kidx.len() == kept@.len(),
                didx.len() == due@.len(),
                forall|k: int| 0 <= k < kidx.len() ==> 0 <= #[trigger] kidx[k] < i,
                forall|a: int, b: int| 0 <= a < b < kidx.len() ==> kidx[a] < kidx[b],
                forall|k: int|
                    0 <= k < kidx.len() ==> (#[trigger] kept@[k]).0@ == old_entries[kidx[k]].0@
                        && kept@[k].1 == old_entries[kidx[k]].1 && old_entries[kidx[k]].1 > now,
                forall|j: int|
                    0 <= j < i && (#[trigger] old_entries[j]).1 > now ==> exists|k: int|
                        0 <= k < kidx.len() && kidx[k] == j,
                forall|k: int| 0 <= k < didx.len() ==> 0 <= #[trigger] didx[k] < i,
                forall|a: int, b: int| 0 <= a < b < didx.len() ==> didx[a] < didx[b],
                forall|k: int|
                    0 <= k < didx.len() ==> (#[trigger] due@[k])@ == old_entries[didx[k]].0@
                        && old_entries[didx[k]].1 <= now,
                forall|j: int|
                    0 <= j < i && (#[trigger] old_entries[j]).1 <= now ==> exists|k: int|
                        0 <= k < didx.len() && didx[k] == j,
            decreases old_entries.len() - i,
        {
            let name = copy_string(self.entries[i].0.as_str());
            let d: u64 = self.entries[i].1;
            if d > now {
                kept.push((name, d));
                proof {
                    let ghost prev = kidx;
                    kidx = kidx.push(i as int);
                    assert forall|j: int|
                        0 <= j < i + 1 && (#[trigger] old_entries[j]).1 > now implies exists|k: int|
                        0 <= k < kidx.len() && kidx[k] == j by {
                        if j == i as int {
                            assert(kidx[kidx.len() - 1] == j);
                        } else {
                            let k = choose|k: int| 0 <= k < prev.len() && prev[k] == j;
                            assert(kidx[k] == prev[k]);
                        }
                    }
                }
            } else {
                due.push(name);
                proof {
                    let ghost prev = didx;
                    didx = didx.push(i as int);
                    assert forall|j: int|
                        0 <= j < i + 1 && (#[trigger] old_entries[j]).1 <= now implies exists|k: int|
                        0 <= k < didx.len() && didx[k] == j by {
                        if j == i as int {
                            assert(didx[didx.len() - 1] == j);
                        } else {
                            let k = choose|k: int| 0 <= k < prev.len() && prev[k] == j;
                            assert(didx[k] == prev[k]);
                        }
                    }
                }
            }
            i = i + 1;
        }
        self.entries = kept;
        proof {
            let ks = self.entries@;
            assert(entries_wf(ks)) by {
                assert forall|a: int, b: int|
                    0 <= a < ks.len() && 0 <= b < ks.len() && a != b implies (#[trigger] ks[a]).0@
                    != (#[trigger] ks[b]).0@ by {
                    assert(kidx[a] != kidx[b]);
                    assert(old_entries[kidx[a]].0@ != old_entries[kidx[b]].0@);
                }
            }
            assert(self@ =~= not_due(old_map, now)) by {
                assert forall|r: Seq<char>| self@.dom().contains(r) implies not_due(
                    old_map,
                    now,
                ).dom().contains(r) && self@[r] == old_map[r] by {
                    let k = choose|k: int| entry_at(ks, k, r);
                    lemma_entry(ks, k);
                    lemma_entry(old_entries, kidx[k]);
                }
                assert forall|r: Seq<char>| not_due(old_map, now).dom().contains(r) implies self@.dom().contains(
                    r,
                ) by {
                    let j = choose|j: int| entry_at(old_entries, j, r);
                    lemma_entry(old_entries, j);
                    assert(old_entries[j].1 > now);
                    let k = choose|k: int| 0 <= k < kidx.len() && kidx[k] == j;
                    assert(entry_at(ks, k, r));
                }
            }
            let names = name_views(due@);
            assert(names.no_duplicates()) by {
                assert forall|a: int, b: int|
                    0 <= a < names.len() && 0 <= b < names.len() && a != b implies names[a]
                    != names[b] by {
                    assert(due@[a]@ == old_entries[didx[a]].0@);
                    assert(due@[b]@ == old_entries[didx[b]].0@);
                    assert(didx[a] != didx[b]);
                }
            }
            assert(names.to_set() =~= due_set(old_map, now)) by {
                assert forall|r: Seq<char>| names.to_set().contains(r) implies due_set(
                    old_map,
                    now,
                ).contains(r) by {
                    let k = choose|k: int| 0 <= k < names.len() && names[k] == r;
                    assert(due@[k]@ == old_entries[didx[k]].0@);
                    lemma_entry(old_entries, didx[k]);
                }
                assert forall|r: Seq<char>| due_set(old_map, now).contains(r) implies names.to_set().contains(
                    r,
                ) by {
                    let j = choose|j: int| entry_at(old_entries, j, r);
                    lemma_entry(old_entries, j);
                    assert(old_entries[j].1 <= now);
                    let k = choose|k: int| 0 <= k < didx.len() && didx[k] == j;
                    assert(due@[k]@ == old_entries[didx[k]].0@);
                    assert(names[k] == r);
                }
            }
        }
        due
    }
}


/// A set of motor roles.
pub struct RoleSet {
    map: RoleMap<()>,
}

impl RoleSet {
    pub closed spec fn wf(self) -> bool {
        self.map.wf()
    }

    /// The roles in the set.
    pub closed spec fn view(self) -> Set<Seq<char>> {
        self.map@.dom()
    }

    pub fn new() -> (s: RoleSet)
        ensures
            s.wf(),
            s@ == Set::<Seq<char>>::empty(),
    {
        let s = RoleSet { map: RoleMap::new() };
        assert(s@ =~= Set::<Seq<char>>::empty());
        s
    }

    pub fn contains(&self, role: &str) -> (b: bool)
        requires
            self.wf(),
        ensures
            b == self@.contains(role@),
    {
        self.map.contains_key(role)
    }

    /// Add `role`; returns whether it was newly added.
    pub fn insert(&mut self, role: &str) -> (added: bool)
        requires
            old(self).wf(),
        ensures
            final(self).wf(),
            final(self)@ == old(self)@.insert(role@),
            added == !old(self)@.contains(role@),
    {
        let had = self.map.contains_key(role);
        self.map.insert(role, ());
        assert(self@ =~= old(self)@.insert(role@));
        !had
    }

    /// Carry membership from `role` over to `new_role` (a rename).
    pub fn rename_role(&mut self, role: &str, new_role: &str)
        requires
            old(self).wf(),
        ensures
            final(self).wf(),
            final(self)@ == if old(self)@.contains(role@) {
                old(self)@.remove(role@).insert(new_role@)
            } else {
                old(self)@
            },
    {
        if self.remove(role) {
            let _ = self.insert(new_role);
        }
    }

    /// Remove `role`; returns whether it was present.
    pub fn remove(&mut self, role: &str) -> (removed: bool)
        requires
            old(self).wf(),
        ensures
            final(self).wf(),
            final(self)@ == old(self)@.remove(role@),
            removed == old(self)@.contains(role@),
    {
        let had = self.map.contains_key(role);
        let _ = self.map.remove(role);
        assert(self@ =~= old(self)@.remove(role@));
        had
    }
}

} // verus!
