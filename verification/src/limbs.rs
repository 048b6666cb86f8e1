//! Present actuators grouped by limb, as `POST /api/home_all` homes them:
//! limbs in name order, each with its motors proximal to distal.
//!
//! How far from the torso a joint sits is the caller's home-order table:
//! one rank per joint kind, lower first. A motor with no joint kind, or
//! one the table does not list, ranks 255 (last).
use vstd::prelude::*;

use crate::inventory::{dev_role, Device, Inventory};
use crate::rolemap::name_views;
use crate::text::{copy_string, lemma_seq_lt_irrefl, lemma_seq_lt_total, lemma_seq_lt_trans, seq_lt, str_eq, str_lt};

verus! {

/// The limb under which a device is homed: present actuators with a limb.
pub open spec fn homing_limb(d: Device) -> Option<Seq<char>> {
    match d {
        Device::Actuator(a) => if a.common.present && a.common.limb is Some {
            Some(a.common.limb->0@)
        } else {
            None
        },
        _ => None,
    }
}

/// Home-order rank of joint kind `j` in `table`: the first entry for it,
/// 255 when there is none.
pub open spec fn rank_in(table: Seq<(Seq<char>, u8)>, j: Seq<char>) -> u8
    decreases table.len(),
{
    if table.len() == 0 {
        255
    } else if table[0].0 == j {
        table[0].1
    } else {
        rank_in(table.drop_first(), j)
    }
}

/// Home-order rank of a device: its joint kind's rank, 255 without one.
pub open spec fn joint_rank(d: Device, table: Seq<(Seq<char>, u8)>) -> u8 {
    match d {
        Device::Actuator(a) => match a.common.joint_kind {
            Some(j) => rank_in(table, j@),
            None => 255,
        },
        _ => 255,
    }
}

/// Pairs of a name and a rank, as values.
pub open spec fn item_views(v: Seq<(String, u8)>) -> Seq<(Seq<char>, u8)> {
    v.map_values(|e: (String, u8)| (e.0@, e.1))
}

/// The names of the items of rank `r`, in order.
pub open spec fn rank_slice(s: Seq<(Seq<char>, u8)>, r: u8) -> Seq<Seq<char>>
    decreases s.len(),
{
    if s.len() == 0 {
        Seq::empty()
    } else {
        let rest = rank_slice(s.drop_last(), r);
        if s.last().1 == r {
            rest.push(s.last().0)
        } else {
            rest
        }
    }
}

/// The names of the items of rank below `n`, rank by rank, each rank in
/// order: with `n == 256`, the items stably sorted by rank.
pub open spec fn by_rank(s: Seq<(Seq<char>, u8)>, n: nat) -> Seq<Seq<char>>
    decreases n,
{
    if n == 0 {
        Seq::empty()
    } else {
        by_rank(s, (n - 1) as nat) + rank_slice(s, (n - 1) as u8)
    }
}

/// The devices homed under limb `l`, in inventory order, each as its role
/// and its home-order rank.
pub open spec fn limb_items(devs: Seq<Device>, l: Seq<char>, table: Seq<(Seq<char>, u8)>) -> Seq<(Seq<char>, u8)>
    decreases devs.len(),
{
    if devs.len() == 0 {
        Seq::empty()
    } else {
        let rest = limb_items(devs.drop_last(), l, table);
        if homing_limb(devs.last()) == Some(l) {
            rest.push((dev_role(devs.last()), joint_rank(devs.last(), table)))
        } else {
            rest
        }
    }
}

/// Some device is homed under limb `l`.
pub open spec fn has_limb(devs: Seq<Device>, l: Seq<char>) -> bool {
    exists|i: int| 0 <= i < devs.len() && homing_limb(#[trigger] devs[i]) == Some(l)
}

/// `g` lists every limb of `devs` once, in name order, each with the roles
/// homed under it (with their ranks), in inventory order.
pub open spec fn limb_groups(devs: Seq<Device>, table: Seq<(Seq<char>, u8)>, g: Seq<(String, Vec<(String, u8)>)>) -> bool {
    &&& forall|a: int, b: int| 0 <= a < b < g.len() ==> seq_lt(#[trigger] g[a].0@, #[trigger] g[b].0@)
    &&& forall|k: int| 0 <= k < g.len() ==> has_limb(devs, (#[trigger] g[k]).0@)
    &&& forall|l: Seq<char>| #[trigger] has_limb(devs, l) ==> exists|k: int| 0 <= k < g.len() && (#[trigger] g[k]).0@ == l
    &&& forall|k: int| 0 <= k < g.len() ==> item_views((#[trigger] g[k]).1@) == limb_items(devs, g[k].0@, table)
}

proof fn lemma_no_limb_no_roles(devs: Seq<Device>, l: Seq<char>, table: Seq<(Seq<char>, u8)>)
    requires
        !has_limb(devs, l),
    ensures
        limb_items(devs, l, table) == Seq::<(Seq<char>, u8)>::empty(),
    decreases devs.len(),
{
    if devs.len() > 0 {
        let s = devs.drop_last();
        assert(!has_limb(s, l)) by {
            if has_limb(s, l) {
                let i = choose|i: int| 0 <= i < s.len() && homing_limb(#[trigger] s[i]) == Some(l);
                assert(devs[i] == s[i]);
            }
        }
        assert(homing_limb(devs[devs.len() - 1]) != Some(l));
        lemma_no_limb_no_roles(s, l, table);
    }
}

/// Adding a device that is homed under no limb changes no group.
proof fn lemma_groups_skip(s: Seq<Device>, d: Device, table: Seq<(Seq<char>, u8)>, g: Seq<(String, Vec<(String, u8)>)>)
    requires
        limb_groups(s, table, g),
        homing_limb(d) is None,
    ensures
        limb_groups(s.push(d), table, g),
{
    let t = s.push(d);
    assert(t.drop_last() =~= s);
    assert forall|k: int| 0 <= k < g.len() implies has_limb(t, (#[trigger] g[k]).0@) by {
        let i = choose|i: int| 0 <= i < s.len() && homing_limb(#[trigger] s[i]) == Some(g[k].0@);
        assert(t[i] == s[i]);
    }
    assert forall|l: Seq<char>| #[trigger] has_limb(t, l) implies exists|k: int|
        0 <= k < g.len() && (#[trigger] g[k]).0@ == l by {
        let i = choose|i: int| 0 <= i < t.len() && homing_limb(#[trigger] t[i]) == Some(l);
        assert(i < s.len());
        assert(t[i] == s[i]);
        assert(has_limb(s, l));
    }
    assert forall|k: int| 0 <= k < g.len() implies item_views((#[trigger] g[k]).1@) == limb_items(t, g[k].0@, table) by {
        assert(limb_items(t, g[k].0@, table) == limb_items(s, g[k].0@, table));
    }
}

/// Record that `role` (the device `d`, of home-order rank `rank`) is homed
/// under limb `l`.
fn add_to_limb(
    g: &mut Vec<(String, Vec<(String, u8)>)>,
    l: &str,
    role: &str,
    rank: u8,
    Ghost(s): Ghost<Seq<Device>>,
    Ghost(d): Ghost<Device>,
    Ghost(table): Ghost<Seq<(Seq<char>, u8)>>,
)
    requires
        joint_rank(d, table) == rank,
        limb_groups(s, table, old(g)@),
        homing_limb(d) == Some(l@),
        dev_role(d) == role@,
    ensures
        limb_groups(s.push(d), table, final(g)@),
{
    let ghost g0 = g@;
    let ghost t = s.push(d);
    proof {
        assert(t.drop_last() =~= s);
        assert(t.last() == d);
        assert(t[s.len() as int] == d);
    }
    let mut k: usize = 0;
    let mut found = false;
    while k < g.len()
        invariant_except_break
            g@ == g0,
            k <= g0.len(),
            !found,
            forall|j: int| 0 <= j < k ==> (#[trigger] g0[j]).0@ != l@ && !seq_lt(l@, g0[j].0@),
        ensures
            g@ == g0,
            k <= g0.len(),
            found ==> k < g0.len() && g0[k as int].0@ == l@,
            !found ==> forall|j: int| 0 <= j < k ==> (#[trigger] g0[j]).0@ != l@ && !seq_lt(l@, g0[j].0@),
            !found ==> k < g0.len() ==> seq_lt(l@, g0[k as int].0@),
        decreases g0.len() - k,
    {
        if str_eq(g[k].0.as_str(), l) {
            found = true;
            break;
        }
        if str_lt(l, g[k].0.as_str()) {
            break;
        }
        k = k + 1;
    }
    if found {
        let (name, mut roles) = g.remove(k);
        roles.push((copy_string(role), rank));
        g.insert(k, (name, roles));
        proof {
            let g1 = g@;
            assert(g1 =~= g0.update(k as int, (name, roles)));
            assert forall|j: int| 0 <= j < g0.len() && j != k implies (#[trigger] g0[j]).0@ != l@ by {
                if j < k {
                    lemma_seq_lt_irrefl(l@);
                    assert(seq_lt(g0[j].0@, g0[k as int].0@));
                } else {
                    lemma_seq_lt_irrefl(l@);
                    assert(seq_lt(g0[k as int].0@, g0[j].0@));
                }
            }
            assert forall|j: int| 0 <= j < g1.len() implies has_limb(t, (#[trigger] g1[j]).0@) by {
                assert(g1[j].0@ == g0[j].0@);
                let i = choose|i: int| 0 <= i < s.len() && homing_limb(#[trigger] s[i]) == Some(g0[j].0@);
                assert(t[i] == s[i]);
            }
            assert forall|m: Seq<char>| #[trigger] has_limb(t, m) implies exists|j: int|
                0 <= j < g1.len() && (#[trigger] g1[j]).0@ == m by {
                let i = choose|i: int| 0 <= i < t.len() && homing_limb(#[trigger] t[i]) == Some(m);
                if i < s.len() {
                    assert(t[i] == s[i]);
                    assert(has_limb(s, m));
                    let j = choose|j: int| 0 <= j < g0.len() && (#[trigger] g0[j]).0@ == m;
                    assert(g1[j].0@ == m);
                } else {
                    assert(g1[k as int].0@ == m);
                }
            }
            assert forall|j: int| 0 <= j < g1.len() implies item_views((#[trigger] g1[j]).1@) == limb_items(t, g1[j].0@, table) by {
                if j == k {
                    assert(item_views(roles@) =~= item_views(g0[j].1@).push((role@, rank)));
                } else {
                    assert(g1[j] == g0[j]);
                }
            }
            assert forall|a: int, b: int| 0 <= a < b < g1.len() implies seq_lt(#[trigger] g1[a].0@, #[trigger] g1[b].0@) by {
                assert(g1[a].0@ == g0[a].0@);
                assert(g1[b].0@ == g0[b].0@);
            }
        }
    } else {
        let mut roles: Vec<(String, u8)> = Vec::new();
        roles.push((copy_string(role), rank));
        let name = copy_string(l);
        g.insert(k, (name, roles));
        proof {
            let g1 = g@;
            let ki = k as int;
            assert(!has_limb(s, l@)) by {
                if has_limb(s, l@) {
                    let j = choose|j: int| 0 <= j < g0.len() && (#[trigger] g0[j]).0@ == l@;
                    if j < ki {
                    } else {
                        assert(seq_lt(l@, g0[ki].0@));
                        if j > ki {
                            assert(seq_lt(g0[ki].0@, g0[j].0@));
                            lemma_seq_lt_trans(l@, g0[ki].0@, g0[j].0@);
                        }
                        lemma_seq_lt_irrefl(l@);
                    }
                }
            }
            lemma_no_limb_no_roles(s, l@, table);
            assert forall|j: int| 0 <= j < ki implies seq_lt(#[trigger] g0[j].0@, l@) by {
                lemma_seq_lt_total(g0[j].0@, l@);
            }
            assert forall|j: int| ki <= j < g0.len() implies seq_lt(l@, #[trigger] g0[j].0@) by {
                if j > ki {
                    assert(seq_lt(g0[ki].0@, g0[j].0@));
                    lemma_seq_lt_trans(l@, g0[ki].0@, g0[j].0@);
                }
            }
            assert forall|j: int| 0 <= j < g1.len() && j != ki implies (#[trigger] g1[j]).0@ != l@ by {
                lemma_seq_lt_irrefl(l@);
                if j < ki {
                    assert(g1[j] == g0[j]);
                } else {
                    assert(g1[j] == g0[j - 1]);
                }
            }
            assert forall|a: int, b: int| 0 <= a < b < g1.len() implies seq_lt(#[trigger] g1[a].0@, #[trigger] g1[b].0@) by {
                if b < ki {
                    assert(g1[a] == g0[a] && g1[b] == g0[b]);
                } else if b == ki {
                    assert(g1[a] == g0[a]);
                } else if a > ki {
                    assert(g1[a] == g0[a - 1] && g1[b] == g0[b - 1]);
                } else if a == ki {
                    assert(g1[b] == g0[b - 1]);
                } else {
                    assert(g1[a] == g0[a] && g1[b] == g0[b - 1]);
                    lemma_seq_lt_trans(g0[a].0@, l@, g0[b - 1].0@);
                }
            }
            assert forall|j: int| 0 <= j < g1.len() implies has_limb(t, (#[trigger] g1[j]).0@) by {
                if j == ki {
                    assert(homing_limb(t[s.len() as int]) == Some(l@));
                } else {
                    let o = if j < ki { j } else { j - 1 };
                    assert(g1[j] == g0[o]);
                    let i = choose|i: int| 0 <= i < s.len() && homing_limb(#[trigger] s[i]) == Some(g0[o].0@);
                    assert(t[i] == s[i]);
                }
            }
            assert forall|m: Seq<char>| #[trigger] has_limb(t, m) implies exists|j: int|
                0 <= j < g1.len() && (#[trigger] g1[j]).0@ == m by {
                let i = choose|i: int| 0 <= i < t.len() && homing_limb(#[trigger] t[i]) == Some(m);
                if i < s.len() {
                    assert(t[i] == s[i]);
                    assert(has_limb(s, m));
                    let o = choose|o: int| 0 <= o < g0.len() && (#[trigger] g0[o]).0@ == m;
                    if o < ki {
                        assert(g1[o] == g0[o]);
                    } else {
                        assert(g1[o + 1] == g0[o]);
                    }
                } else {
                    assert(g1[ki].0@ == m);
                }
            }
            assert forall|j: int| 0 <= j < g1.len() implies item_views((#[trigger] g1[j]).1@) == limb_items(t, g1[j].0@, table) by {
                if j == ki {
                    assert(item_views(g1[j].1@) =~= seq![(role@, rank)]);
                    assert(limb_items(t, l@, table) =~= Seq::<(Seq<char>, u8)>::empty().push((role@, rank)));
                } else {
                    let o = if j < ki { j } else { j - 1 };
                    assert(g1[j] == g0[o]);
                }
            }
        }
    }
}

/// How many items have rank `r`.
pub open spec fn count_rank(s: Seq<(Seq<char>, u8)>, r: u8) -> nat
    decreases s.len(),
{
    if s.len() == 0 {
        0
    } else {
        count_rank(s.drop_last(), r) + if s.last().1 == r { 1nat } else { 0nat }
    }
}

/// How many items have a rank below `n`.
pub open spec fn count_below(s: Seq<(Seq<char>, u8)>, n: nat) -> nat
    decreases s.len(),
{
    if s.len() == 0 {
        0
    } else {
        count_below(s.drop_last(), n) + if (s.last().1 as nat) < n { 1nat } else { 0nat }
    }
}

proof fn lemma_rank_slice_len(s: Seq<(Seq<char>, u8)>, r: u8)
    ensures
        rank_slice(s, r).len() == count_rank(s, r),
    decreases s.len(),
{
    if s.len() > 0 {
        lemma_rank_slice_len(s.drop_last(), r);
    }
}

proof fn lemma_count_below_step(s: Seq<(Seq<char>, u8)>, n: nat)
    requires
        n < 256,
    ensures
        count_below(s, n + 1) == count_below(s, n) + count_rank(s, n as u8),
    decreases s.len(),
{
    if s.len() > 0 {
        lemma_count_below_step(s.drop_last(), n);
    }
}

proof fn lemma_count_below_all(s: Seq<(Seq<char>, u8)>)
    ensures
        count_below(s, 256) == s.len(),
    decreases s.len(),
{
    if s.len() > 0 {
        lemma_count_below_all(s.drop_last());
    }
}

proof fn lemma_by_rank_len(s: Seq<(Seq<char>, u8)>, n: nat)
    requires
        n <= 256,
    ensures
        by_rank(s, n).len() == count_below(s, n),
    decreases n,
{
    if n == 0 {
        assert(count_below(s, 0) == 0) by {
            lemma_count_below_zero(s);
        }
    } else {
        lemma_by_rank_len(s, (n - 1) as nat);
        lemma_rank_slice_len(s, (n - 1) as u8);
        lemma_count_below_step(s, (n - 1) as nat);
    }
}

proof fn lemma_count_below_zero(s: Seq<(Seq<char>, u8)>)
    ensures
        count_below(s, 0) == 0,
    decreases s.len(),
{
    if s.len() > 0 {
        lemma_count_below_zero(s.drop_last());
    }
}

/// Sorting by rank loses no motor and adds none: a limb homes exactly as
/// many motors as it has.
pub proof fn law_by_rank_keeps_every_item(s: Seq<(Seq<char>, u8)>)
    ensures
        by_rank(s, 256).len() == s.len(),
{
    lemma_by_rank_len(s, 256);
    lemma_count_below_all(s);
}

/// Lower ranks come first: the motors of ranks below `m` form the start
/// of the list sorted up to any higher bound `n`.
pub proof fn law_lower_ranks_first(s: Seq<(Seq<char>, u8)>, m: nat, n: nat)
    requires
        m <= n,
    ensures
        by_rank(s, m).len() <= by_rank(s, n).len(),
        by_rank(s, n).subrange(0, by_rank(s, m).len() as int) == by_rank(s, m),
    decreases n,
{
    if m < n {
        law_lower_ranks_first(s, m, (n - 1) as nat);
        let p = by_rank(s, (n - 1) as nat);
        let k = by_rank(s, m).len() as int;
        assert((p + rank_slice(s, (n - 1) as u8)).subrange(0, k) =~= p.subrange(0, k));
    } else {
        assert(by_rank(s, n).subrange(0, by_rank(s, n).len() as int) =~= by_rank(s, n));
    }
}

/// Home-order rank of a joint kind in `home_order`.
fn rank_of(home_order: &Vec<(String, u8)>, joint: &Option<String>) -> (r: u8)
    ensures
        r == (match joint {
            Some(j) => rank_in(item_views(home_order@), j@),
            None => 255u8,
        }),
{
    let j = match joint {
        Some(j) => j,
        None => return 255,
    };
    let ghost tv = item_views(home_order@);
    let mut i: usize = 0;
    assert(tv.skip(0) =~= tv);
    while i < home_order.len()
        invariant
            tv == item_views(home_order@),
            *joint == Some(*j),
            i <= home_order@.len(),
            rank_in(tv, j@) == rank_in(tv.skip(i as int), j@),
        decreases home_order@.len() - i,
    {
        assert(tv.skip(i as int)[0] == (home_order@[i as int].0@, home_order@[i as int].1));
        if str_eq(home_order[i].0.as_str(), j.as_str()) {
            assert(tv.skip(i as int).len() > 0);
            assert(rank_in(tv.skip(i as int), j@) == home_order@[i as int].1);
            return home_order[i].1;
        }
        assert(tv.skip(i as int).drop_first() =~= tv.skip(i + 1));
        i = i + 1;
    }
    assert(tv.skip(i as int).len() == 0);
    255
}

/// The names of `items`, stably sorted by rank.
fn names_by_rank(items: &Vec<(String, u8)>) -> (r: Vec<String>)
    ensures
        name_views(r@) == by_rank(item_views(items@), 256),
{
    let ghost s = item_views(items@);
    let mut out: Vec<String> = Vec::new();
    let mut rank: u16 = 0;
    while rank < 256
        invariant
            s == item_views(items@),
            rank <= 256,
            name_views(out@) == by_rank(s, rank as nat),
        decreases 256 - rank,
    {
        let ghost before = name_views(out@);
        let mut i: usize = 0;
        while i < items.len()
            invariant
                s == item_views(items@),
                rank < 256,
                i <= items@.len(),
                name_views(out@) == before + rank_slice(s.take(i as int), rank as u8),
            decreases items@.len() - i,
        {
            proof {
                assert(s.take(i + 1).drop_last() =~= s.take(i as int));
                assert(s.take(i + 1).last() == (items@[i as int].0@, items@[i as int].1));
            }
            if items[i].1 as u16 == rank {
                let ghost prev = out@;
                out.push(copy_string(items[i].0.as_str()));
                proof {
                    assert(items@[i as int].1 == rank as u8);
                    assert(rank_slice(s.take(i + 1), rank as u8) == rank_slice(s.take(i as int), rank as u8).push(
                        items@[i as int].0@,
                    ));
                    assert(name_views(out@) =~= name_views(prev).push(items@[i as int].0@));
                    assert(name_views(out@) =~= before + rank_slice(s.take(i + 1), rank as u8));
                }
            }
            i = i + 1;
        }
        proof {
            assert(s.take(items@.len() as int) =~= s);
        }
        rank = rank + 1;
    }
    out
}

/// `g` lists every limb of `devs` once, in name order, each with the roles
/// homed under it stably sorted by home-order rank (inventory order among
/// equal ranks).
pub open spec fn limbs_ordered(devs: Seq<Device>, table: Seq<(Seq<char>, u8)>, g: Seq<(String, Vec<String>)>) -> bool {
    &&& forall|a: int, b: int| 0 <= a < b < g.len() ==> seq_lt(#[trigger] g[a].0@, #[trigger] g[b].0@)
    &&& forall|k: int| 0 <= k < g.len() ==> has_limb(devs, (#[trigger] g[k]).0@)
    &&& forall|l: Seq<char>| #[trigger] has_limb(devs, l) ==> exists|k: int| 0 <= k < g.len() && (#[trigger] g[k]).0@ == l
    &&& forall|k: int| 0 <= k < g.len() ==> name_views((#[trigger] g[k]).1@) == by_rank(limb_items(devs, g[k].0@, table), 256)
}

/// Present actuators that have a limb, grouped by limb: limbs in name
/// order, each with its motors' roles sorted by `home_order` rank of their
/// joint kind (stable: inventory order among equal ranks).
pub fn ordered_actuators_per_limb(inv: &Inventory, home_order: &Vec<(String, u8)>) -> (g: Vec<(String, Vec<String>)>)
    ensures
        limbs_ordered(inv.devices@, item_views(home_order@), g@),
{
    let ghost devs = inv.devices@;
    let ghost table = item_views(home_order@);
    let mut g: Vec<(String, Vec<(String, u8)>)> = Vec::new();
    let mut i: usize = 0;
    while i < inv.devices.len()
        invariant
            devs == inv.devices@,
            table == item_views(home_order@),
            i <= devs.len(),
            limb_groups(devs.take(i as int), table, g@),
        decreases devs.len() - i,
    {
        proof {
            assert(devs.take(i + 1) =~= devs.take(i as int).push(devs[i as int]));
        }
        let mut grouped = false;
        match &inv.devices[i] {
            Device::Actuator(a) => {
                if a.common.present {
                    match &a.common.limb {
                        Some(l) => {
                            let rank = rank_of(home_order, &a.common.joint_kind);
                            add_to_limb(
                                &mut g,
                                l.as_str(),
                                a.common.role.as_str(),
                                rank,
                                Ghost(devs.take(i as int)),
                                Ghost(devs[i as int]),
                                Ghost(table),
                            );
                            grouped = true;
                        },
                        None => {},
                    }
                }
            },
            _ => {},
        }
        if !grouped {
            proof {
                lemma_groups_skip(devs.take(i as int), devs[i as int], table, g@);
            }
        }
        i = i + 1;
    }
    proof {
        assert(devs.take(devs.len() as int) =~= devs);
    }
    let mut out: Vec<(String, Vec<String>)> = Vec::new();
    let mut k: usize = 0;
    while k < g.len()
        invariant
            limb_groups(devs, table, g@),
            k <= g@.len(),
            out@.len() == k,
            forall|j: int| 0 <= j < k ==> (#[trigger] out@[j]).0@ == g@[j].0@ && name_views(out@[j].1@)
                == by_rank(item_views(g@[j].1@), 256),
        decreases g@.len() - k,
    {
        let roles = names_by_rank(&g[k].1);
        out.push((copy_string(g[k].0.as_str()), roles));
        k = k + 1;
    }
    proof {
        let o = out@;
        assert forall|a: int, b: int| 0 <= a < b < o.len() implies seq_lt(#[trigger] o[a].0@, #[trigger] o[b].0@) by {
            assert(o[a].0@ == g@[a].0@ && o[b].0@ == g@[b].0@);
            assert(seq_lt(g@[a].0@, g@[b].0@));
        }
        assert forall|j: int| 0 <= j < o.len() implies has_limb(devs, (#[trigger] o[j]).0@) by {
            assert(o[j].0@ == g@[j].0@);
            assert(has_limb(devs, g@[j].0@));
        }
        assert forall|l: Seq<char>| #[trigger] has_limb(devs, l) implies exists|j: int|
            0 <= j < o.len() && (#[trigger] o[j]).0@ == l by {
            let j = choose|j: int| 0 <= j < g@.len() && (#[trigger] g@[j]).0@ == l;
            assert(o[j].0@ == g@[j].0@);
        }
        assert forall|j: int| 0 <= j < o.len() implies name_views((#[trigger] o[j]).1@) == by_rank(
            limb_items(devs, o[j].0@, table),
            256,
        ) by {
            assert(o[j].0@ == g@[j].0@);
            assert(item_views(g@[j].1@) == limb_items(devs, g@[j].0@, table));
        }
    }
    out
}

} // verus!
