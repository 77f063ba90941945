//! Balance rankings: each list holds accounts by balance, highest first,
//! every address at most once and no zero balances, at most 200 entries.

use vstd::prelude::*;

use crate::setting::{BalanceRankingList, RankBalance, ScanSettings, SettingsView};

verus! {

/// Entries kept in a ranking.
pub const MAX_RANK_ENTRIES: usize = 200;

/// `s` without the entries of address `a`, in the same order.
pub open spec fn remove_address(s: Seq<(Seq<u8>, u64)>, a: Seq<u8>) -> Seq<(Seq<u8>, u64)>
    decreases s.len(),
{
    if s.len() == 0 {
        s
    } else {
        let t = remove_address(s.drop_last(), a);
        if s.last().0 == a {
            t
        } else {
            t.push(s.last())
        }
    }
}

/// Where a new balance goes: after every entry it does not exceed.
pub open spec fn rank_insert_pos(s: Seq<(Seq<u8>, u64)>, amount: u64) -> nat
    decreases s.len(),
{
    if s.len() == 0 {
        0
    } else if amount > s[0].1 {
        0
    } else {
        1 + rank_insert_pos(s.drop_first(), amount)
    }
}

/// The ranking once address `a` has balance `amount`: its old entries go,
/// and a positive balance enters after the entries that are not smaller.
pub open spec fn update_rank_spec(s: Seq<(Seq<u8>, u64)>, a: Seq<u8>, amount: u64) -> Seq<
    (Seq<u8>, u64),
> {
    let t = remove_address(s, a);
    if amount == 0 {
        t
    } else {
        t.insert(rank_insert_pos(t, amount) as int, (a, amount))
    }
}

/// Highest balance first, each address once.
pub open spec fn ranking_sorted(s: Seq<(Seq<u8>, u64)>) -> bool {
    &&& forall|i: int, j: int| 0 <= i < j < s.len() ==> #[trigger] s[i].1 >= #[trigger] s[j].1
    &&& forall|i: int, j: int| 0 <= i < j < s.len() ==> #[trigger] s[i].0 != #[trigger] s[j].0
}

/// Highest balance first, each address once, no zero balance.
pub open spec fn ranking_ordered(s: Seq<(Seq<u8>, u64)>) -> bool {
    &&& forall|i: int, j: int| 0 <= i < j < s.len() ==> #[trigger] s[i].1 >= #[trigger] s[j].1
    &&& forall|i: int, j: int| 0 <= i < j < s.len() ==> #[trigger] s[i].0 != #[trigger] s[j].0
    &&& forall|i: int| 0 <= i < s.len() ==> #[trigger] s[i].1 > 0
}

proof fn lemma_remove_address_from(s: Seq<(Seq<u8>, u64)>, a: Seq<u8>)
    ensures
        forall|i: int|
            #![trigger remove_address(s, a)[i]]
            0 <= i < remove_address(s, a).len() ==> s.contains(remove_address(s, a)[i])
                && remove_address(s, a)[i].0 != a,
        remove_address(s, a).len() <= s.len(),
    decreases s.len(),
{
    if s.len() > 0 {
        let s0 = s.drop_last();
        lemma_remove_address_from(s0, a);
        let t = remove_address(s0, a);
        assert forall|i: int| #![trigger remove_address(s, a)[i]]
            0 <= i < remove_address(s, a).len() implies s.contains(remove_address(s, a)[i])
                && remove_address(s, a)[i].0 != a by {
            if i < t.len() {
                assert(s0.contains(t[i]));
                let k = choose|k: int| 0 <= k < s0.len() && s0[k] == t[i];
                assert(s[k] == t[i]);
            } else {
                assert(s[s.len() - 1] == s.last());
            }
        }
    }
}

/// Removing an address from a sorted ranking leaves it sorted.
proof fn lemma_remove_address_sorted(s: Seq<(Seq<u8>, u64)>, a: Seq<u8>)
    requires
        ranking_sorted(s),
    ensures
        ranking_sorted(remove_address(s, a)),
    decreases s.len(),
{
    if s.len() > 0 {
        let s0 = s.drop_last();
        assert(ranking_sorted(s0)) by {
            assert forall|i: int, j: int| 0 <= i < j < s0.len() implies #[trigger] s0[i].1
                >= #[trigger] s0[j].1 by {
                assert(s[i].1 >= s[j].1);
            }
            assert forall|i: int, j: int| 0 <= i < j < s0.len() implies #[trigger] s0[i].0
                != #[trigger] s0[j].0 by {
                assert(s[i].0 != s[j].0);
            }
        }
        lemma_remove_address_sorted(s0, a);
        lemma_remove_address_from(s0, a);
        let t = remove_address(s0, a);
        if s.last().0 != a {
            let u = t.push(s.last());
            assert forall|i: int| #![trigger t[i]] 0 <= i < t.len() implies t[i].1 >= s.last().1
                && t[i].0 != s.last().0 by {
                assert(s0.contains(t[i]));
                let k = choose|k: int| 0 <= k < s0.len() && s0[k] == t[i];
                assert(s[k] == t[i]);
                assert(s[k].1 >= s[s.len() - 1].1);
                assert(s[k].0 != s[s.len() - 1].0);
            }
            assert forall|i: int, j: int| 0 <= i < j < u.len() implies #[trigger] u[i].1
                >= #[trigger] u[j].1 by {
                if j < t.len() {
                    assert(t[i].1 >= t[j].1);
                } else {
                    assert(t[i].1 >= s.last().1);
                }
            }
            assert forall|i: int, j: int| 0 <= i < j < u.len() implies #[trigger] u[i].0
                != #[trigger] u[j].0 by {
                if j < t.len() {
                    assert(t[i].0 != t[j].0);
                } else {
                    assert(t[i].0 != s.last().0);
                }
            }
        }
    }
}

/// The insert position splits an ordered ranking into entries not below the
/// amount and entries below it.
proof fn lemma_rank_insert_pos(s: Seq<(Seq<u8>, u64)>, amount: u64)
    requires
        forall|i: int, j: int| 0 <= i < j < s.len() ==> #[trigger] s[i].1 >= #[trigger] s[j].1,
    ensures
        rank_insert_pos(s, amount) <= s.len(),
        forall|i: int| 0 <= i < rank_insert_pos(s, amount) ==> #[trigger] s[i].1 >= amount,
        forall|i: int| rank_insert_pos(s, amount) <= i < s.len() ==> #[trigger] s[i].1 < amount,
    decreases s.len(),
{
    if s.len() > 0 && !(amount > s[0].1) {
        let s1 = s.drop_first();
        assert forall|i: int, j: int| 0 <= i < j < s1.len() implies #[trigger] s1[i].1
            >= #[trigger] s1[j].1 by {
            assert(s[i + 1].1 >= s[j + 1].1);
        }
        lemma_rank_insert_pos(s1, amount);
        let p = rank_insert_pos(s, amount);
        assert forall|i: int| 0 <= i < p implies #[trigger] s[i].1 >= amount by {
            if i > 0 {
                assert(s1[i - 1].1 >= amount);
            }
        }
        assert forall|i: int| p <= i < s.len() implies #[trigger] s[i].1 < amount by {
            assert(s1[i - 1].1 < amount);
        }
    } else if s.len() > 0 {
        assert forall|i: int| 0 <= i < s.len() implies #[trigger] s[i].1 < amount by {
            if i > 0 {
                assert(s[0].1 >= s[i].1);
            }
        }
    }
}

/// Law: updating one address keeps a ranking sorted, highest balance first
/// with each address once, whatever balances it holds.
pub proof fn lemma_update_rank_keeps_sorted(s: Seq<(Seq<u8>, u64)>, a: Seq<u8>, amount: u64)
    requires
        ranking_sorted(s),
    ensures
        ranking_sorted(update_rank_spec(s, a, amount)),
{
    lemma_remove_address_sorted(s, a);
    lemma_remove_address_from(s, a);
    let t = remove_address(s, a);
    if amount > 0 {
        lemma_rank_insert_pos(t, amount);
        let p = rank_insert_pos(t, amount) as int;
        let u = t.insert(p, (a, amount));
        assert forall|i: int, j: int| 0 <= i < j < u.len() implies #[trigger] u[i].1
            >= #[trigger] u[j].1 by {
            if j < p {
                assert(t[i].1 >= t[j].1);
            } else if j == p {
                assert(t[i].1 >= amount);
            } else if i < p {
                assert(t[i].1 >= t[j - 1].1);
            } else if i == p {
                assert(t[j - 1].1 < amount);
            } else {
                assert(t[i - 1].1 >= t[j - 1].1);
            }
        }
        assert forall|i: int, j: int| 0 <= i < j < u.len() implies #[trigger] u[i].0
            != #[trigger] u[j].0 by {
            if j < p {
                assert(t[i].0 != t[j].0);
            } else if j == p {
                assert(t[i].0 != a);
            } else if i < p {
                assert(t[i].0 != t[j - 1].0);
            } else if i == p {
                assert(t[j - 1].0 != a);
            } else {
                assert(t[i - 1].0 != t[j - 1].0);
            }
        }
    }
}

/// Law: updating one address keeps a ranking ordered: sorted, and with no
/// zero balance.
pub proof fn lemma_update_rank_keeps_order(s: Seq<(Seq<u8>, u64)>, a: Seq<u8>, amount: u64)
    requires
        ranking_ordered(s),
    ensures
        ranking_ordered(update_rank_spec(s, a, amount)),
{
    lemma_update_rank_keeps_sorted(s, a, amount);
    lemma_remove_address_from(s, a);
    let t = remove_address(s, a);
    let u = update_rank_spec(s, a, amount);
    assert forall|i: int| 0 <= i < t.len() implies #[trigger] t[i].1 > 0 by {
        assert(s.contains(t[i]));
        let k = choose|k: int| 0 <= k < s.len() && s[k] == t[i];
        assert(s[k].1 > 0);
    }
    if amount > 0 {
        lemma_rank_insert_pos_bound(t, amount);
        let p = rank_insert_pos(t, amount) as int;
        assert forall|i: int| 0 <= i < u.len() implies #[trigger] u[i].1 > 0 by {
            if i < p {
                assert(t[i].1 > 0);
            } else if i > p {
                assert(t[i - 1].1 > 0);
            }
        }
    }
}

/// Law: after an update the address appears exactly when its balance is
/// positive, with that balance, and every other entry is as before.
pub proof fn lemma_update_rank_content(s: Seq<(Seq<u8>, u64)>, a: Seq<u8>, amount: u64)
    ensures
        amount > 0 <==> update_rank_spec(s, a, amount).contains((a, amount)),
        forall|i: int|
            0 <= i < update_rank_spec(s, a, amount).len() && #[trigger] update_rank_spec(
                s,
                a,
                amount,
            )[i].0 == a ==> update_rank_spec(s, a, amount)[i].1 == amount,
        remove_address(update_rank_spec(s, a, amount), a) == remove_address(s, a),
{
    lemma_remove_address_from(s, a);
    let t = remove_address(s, a);
    let u = update_rank_spec(s, a, amount);
    if amount > 0 {
        let p = rank_insert_pos(t, amount) as int;
        assert(p <= t.len()) by {
            lemma_rank_insert_pos_bound(t, amount);
        }
        assert(u[p] == (a, amount));
        assert forall|i: int| 0 <= i < u.len() && #[trigger] u[i].0 == a implies u[i].1 == amount by {
            if i < p {
                assert(t[i].0 != a);
            } else if i > p {
                assert(t[i - 1].0 != a);
            }
        }
        lemma_remove_address_insert(t, p, a, amount);
    } else {
        assert forall|i: int| 0 <= i < u.len() && #[trigger] u[i].0 == a implies u[i].1 == amount by {
            assert(t[i].0 != a);
        }
        if u.contains((a, amount)) {
            let k = choose|k: int| 0 <= k < u.len() && u[k] == (a, amount);
            assert(t[k].0 != a);
        }
        lemma_remove_address_none(t, a);
    }
}

proof fn lemma_rank_insert_pos_bound(s: Seq<(Seq<u8>, u64)>, amount: u64)
    ensures
        rank_insert_pos(s, amount) <= s.len(),
    decreases s.len(),
{
    if s.len() > 0 {
        lemma_rank_insert_pos_bound(s.drop_first(), amount);
    }
}

/// Removing an address that does not occur changes nothing.
proof fn lemma_remove_address_none(s: Seq<(Seq<u8>, u64)>, a: Seq<u8>)
    requires
        forall|i: int| 0 <= i < s.len() ==> #[trigger] s[i].0 != a,
    ensures
        remove_address(s, a) == s,
    decreases s.len(),
{
    if s.len() > 0 {
        lemma_remove_address_none(s.drop_last(), a);
        assert(s.drop_last().push(s.last()) =~= s);
    }
}

/// Inserting an entry of the removed address and removing it again gives
/// back the list, when the list lacks the address.
proof fn lemma_remove_address_insert(t: Seq<(Seq<u8>, u64)>, p: int, a: Seq<u8>, amount: u64)
    requires
        0 <= p <= t.len(),
        forall|i: int| 0 <= i < t.len() ==> #[trigger] t[i].0 != a,
    ensures
        remove_address(t.insert(p, (a, amount)), a) == t,
    decreases t.len(),
{
    let u = t.insert(p, (a, amount));
    if p == t.len() {
        assert(u.drop_last() =~= t);
        lemma_remove_address_none(t, a);
    } else {
        let t0 = t.drop_last();
        lemma_remove_address_insert(t0, p, a, amount);
        assert(u.drop_last() =~= t0.insert(p, (a, amount)));
        assert(u.last() == t.last());
        assert(t0.push(t.last()) =~= t);
    }
}

fn same_address(a: &Vec<u8>, b: &Vec<u8>) -> (r: bool)
    ensures
        r == (a@ == b@),
{
    if a.len() != b.len() {
        return false;
    }
    let mut i: usize = 0;
    while i < a.len()
        invariant
            a@.len() == b@.len(),
            i <= a@.len(),
            forall|k: int| 0 <= k < i ==> a@[k] == b@[k],
        decreases a@.len() - i,
    {
        if a[i] != b[i] {
            return false;
        }
        i = i + 1;
    }
    assert(a@ =~= b@);
    true
}

impl RankBalance {
    /// A copy of the entry.
    pub fn copy(&self) -> (r: RankBalance)
        ensures
            r@ == self@,
    {
        let addr = self.addr.clone();
        assert(addr@ =~= self.addr@);
        RankBalance { addr, amount: self.amount }
    }
}

/// Sets the ranking balance of one address: its old entries go, and a
/// positive balance enters after the entries that are not smaller. The
/// count is left as it was.
pub fn update_one_rank(ranking: &mut BalanceRankingList, address: &Vec<u8>, amount: u64)
    ensures
        final(ranking).count == old(ranking).count,
        final(ranking)@.1 == update_rank_spec(old(ranking)@.1, address@, amount),
{
    let ghost s = ranking@.1;
    let mut kept: Vec<RankBalance> = Vec::new();
    let mut i: usize = 0;
    assert(s.take(0) =~= Seq::<(Seq<u8>, u64)>::empty());
    while i < ranking.lists.len()
        invariant
            s == ranking.lists@.map_values(|r: RankBalance| r@),
            i <= ranking.lists@.len(),
            kept@.map_values(|r: RankBalance| r@) == remove_address(s.take(i as int), address@),
        decreases ranking.lists@.len() - i,
    {
        let ghost before = kept@.map_values(|r: RankBalance| r@);
        assert(s.take(i + 1).drop_last() =~= s.take(i as int));
        assert(s.take(i + 1).last() == ranking.lists@[i as int]@);
        if !same_address(&ranking.lists[i].addr, address) {
            let item = ranking.lists[i].copy();
            kept.push(item);
            assert(kept@.map_values(|r: RankBalance| r@) =~= before.push(item@));
        }
        i = i + 1;
    }
    assert(s.take(s.len() as int) =~= s);
    if amount == 0 {
        ranking.lists = kept;
        return;
    }
    let ghost t = kept@.map_values(|r: RankBalance| r@);
    let mut pos: usize = 0;
    while pos < kept.len() && !(amount > kept[pos].amount)
        invariant
            t == kept@.map_values(|r: RankBalance| r@),
            pos <= kept@.len(),
            forall|k: int| 0 <= k < pos ==> !(amount > #[trigger] t[k].1),
        decreases kept@.len() - pos,
    {
        pos = pos + 1;
    }
    proof {
        lemma_insert_pos_found(t, amount, pos as int);
    }
    let entry = RankBalance { addr: address.clone(), amount };
    assert(entry.addr@ =~= address@);
    kept.insert(pos, entry);
    assert(kept@.map_values(|r: RankBalance| r@) =~= t.insert(pos as int, (address@, amount)));
    ranking.lists = kept;
}

proof fn lemma_insert_pos_found(s: Seq<(Seq<u8>, u64)>, amount: u64, p: int)
    requires
        0 <= p <= s.len(),
        forall|k: int| 0 <= k < p ==> !(amount > #[trigger] s[k].1),
        p == s.len() || amount > s[p].1,
    ensures
        rank_insert_pos(s, amount) == p,
    decreases p,
{
    if p > 0 {
        let s1 = s.drop_first();
        assert(!(amount > s[0].1));
        assert forall|k: int| 0 <= k < p - 1 implies !(amount > #[trigger] s1[k].1) by {
            assert(!(amount > s[k + 1].1));
        }
        lemma_insert_pos_found(s1, amount, p - 1);
    }
}


/// A ranking cut to its first 200 entries, counted.
pub open spec fn truncate_rank_spec(l: (u8, Seq<(Seq<u8>, u64)>)) -> (u8, Seq<(Seq<u8>, u64)>) {
    let s = if l.1.len() > 200 {
        l.1.take(200)
    } else {
        l.1
    };
    (s.len() as u8, s)
}

/// Keeps the first 200 entries and sets the count to the entry number.
pub fn truncate_rank(ranking: &mut BalanceRankingList)
    ensures
        final(ranking)@ == truncate_rank_spec(old(ranking)@),
{
    ranking.lists.truncate(MAX_RANK_ENTRIES);
    ranking.count = ranking.lists.len() as u8;
    assert(ranking@.1 =~= truncate_rank_spec(old(ranking)@).1);
}

/// The balances of an account: HAC in zhu (or the error met converting the
/// HAC amount to zhu), satoshi and diamonds.
#[derive(Debug)]
pub struct AccountBalance {
    pub zhu: Result<u64, String>,
    pub satoshi: u64,
    pub diamond: u64,
}

/// An account and its balances; `None` when the account holds nothing.
#[derive(Debug)]
pub struct BalanceUpdate {
    pub address: Vec<u8>,
    pub balance: Option<AccountBalance>,
}

/// The three amounts ranked for an update, or the HAC conversion error.
pub open spec fn balance_amounts(u: BalanceUpdate) -> Result<(u64, u64, u64), Seq<char>> {
    match u.balance {
        None => Ok((0, 0, 0)),
        Some(b) => match b.zhu {
            Ok(z) => Ok((z, b.satoshi, b.diamond)),
            Err(e) => Err(e@),
        },
    }
}

/// The three rankings with one account at the given amounts.
pub open spec fn apply_balance(v: SettingsView, a: Seq<u8>, t: (u64, u64, u64)) -> SettingsView {
    SettingsView {
        rank_zhu: (v.rank_zhu.0, update_rank_spec(v.rank_zhu.1, a, t.0)),
        rank_sat: (v.rank_sat.0, update_rank_spec(v.rank_sat.1, a, t.1)),
        rank_dia: (v.rank_dia.0, update_rank_spec(v.rank_dia.1, a, t.2)),
        ..v
    }
}

/// The snapshot after the updates in order, stopping at the first HAC
/// conversion error, which it returns.
pub open spec fn apply_balances(v: SettingsView, us: Seq<BalanceUpdate>) -> (SettingsView, Option<
    Seq<char>,
>)
    decreases us.len(),
{
    if us.len() == 0 {
        (v, None)
    } else {
        let (v0, e0) = apply_balances(v, us.drop_last());
        match e0 {
            Some(e) => (v0, Some(e)),
            None => match balance_amounts(us.last()) {
                Err(e) => (v0, Some(e)),
                Ok(t) => (apply_balance(v0, us.last().address@, t), None),
            },
        }
    }
}

/// The three rankings cut to 200 entries and counted.
pub open spec fn truncate_rankings(v: SettingsView) -> SettingsView {
    SettingsView {
        rank_zhu: truncate_rank_spec(v.rank_zhu),
        rank_sat: truncate_rank_spec(v.rank_sat),
        rank_dia: truncate_rank_spec(v.rank_dia),
        ..v
    }
}

proof fn lemma_apply_balances_keeps_rest(v: SettingsView, us: Seq<BalanceUpdate>)
    ensures
        ({
            let w = apply_balances(v, us).0;
            w == SettingsView { rank_zhu: w.rank_zhu, rank_sat: w.rank_sat, rank_dia: w.rank_dia, ..v }
        }),
    decreases us.len(),
{
    if us.len() > 0 {
        lemma_apply_balances_keeps_rest(v, us.drop_last());
    }
}

/// Brings the rankings up to date with account balances, in order; a
/// HAC amount that does not convert to zhu stops the update with its error,
/// leaving the accounts before it applied and the lists uncut.
pub fn update_ranking(setting: &mut ScanSettings, balances: &Vec<BalanceUpdate>) -> (r: Result<(), String>)
    ensures
        final(setting)@ == (SettingsView {
            rank_zhu: final(setting)@.rank_zhu,
            rank_sat: final(setting)@.rank_sat,
            rank_dia: final(setting)@.rank_dia,
            ..old(setting)@
        }),
        match apply_balances(old(setting)@, balances@) {
            (v, None) => r is Ok && final(setting)@ == truncate_rankings(v),
            (v, Some(e)) => (r matches Err(m) && m@ == e) && final(setting)@ == v,
        },
{
    proof {
        lemma_apply_balances_keeps_rest(setting@, balances@);
    }
    let mut i: usize = 0;
    assert(balances@.take(0) =~= Seq::<BalanceUpdate>::empty());
    while i < balances.len()
        invariant
            i <= balances@.len(),
            apply_balances(old(setting)@, balances@.take(i as int)) == (setting@, None::<Seq<char>>),
        decreases balances@.len() - i,
    {
        let u = &balances[i];
        assert(balances@.take(i + 1).drop_last() =~= balances@.take(i as int));
        assert(balances@.take(i + 1).last() == *u);
        let (zhu, sat, dia) = match &u.balance {
            None => (0u64, 0u64, 0u64),
            Some(b) => match &b.zhu {
                Ok(z) => (*z, b.satoshi, b.diamond),
                Err(e) => {
                    proof {
                        lemma_apply_balances_stops(old(setting)@, balances@, (i + 1) as nat);
                        lemma_apply_balances_keeps_rest(old(setting)@, balances@);
                    }
                    return Err(e.clone());
                },
            },
        };
        update_one_rank(&mut setting.rank_zhu, &u.address, zhu);
        update_one_rank(&mut setting.rank_sat, &u.address, sat);
        update_one_rank(&mut setting.rank_dia, &u.address, dia);
        i = i + 1;
    }
    assert(balances@.take(balances@.len() as int) =~= balances@);
    truncate_rank(&mut setting.rank_zhu);
    truncate_rank(&mut setting.rank_sat);
    truncate_rank(&mut setting.rank_dia);
    Ok(())
}

/// Once an update fails, later ones change nothing and the error stays.
proof fn lemma_apply_balances_stops(v: SettingsView, us: Seq<BalanceUpdate>, k: nat)
    requires
        0 < k <= us.len(),
        apply_balances(v, us.take(k as int)).1 is Some,
    ensures
        apply_balances(v, us) == apply_balances(v, us.take(k as int)),
    decreases us.len() - k,
{
    if k < us.len() {
        assert(us.take(k + 1 as int).drop_last() =~= us.take(k as int));
        lemma_apply_balances_stops(v, us, k + 1);
    } else {
        assert(us.take(k as int) =~= us);
    }
}

/// All three rankings are ordered.
pub open spec fn rankings_ordered(v: SettingsView) -> bool {
    &&& ranking_ordered(v.rank_zhu.1)
    &&& ranking_ordered(v.rank_sat.1)
    &&& ranking_ordered(v.rank_dia.1)
}

proof fn lemma_take_ordered(s: Seq<(Seq<u8>, u64)>, n: int)
    requires
        ranking_ordered(s),
        0 <= n <= s.len(),
    ensures
        ranking_ordered(s.take(n)),
{
    let t = s.take(n);
    assert forall|i: int, j: int| 0 <= i < j < t.len() implies #[trigger] t[i].1 >= #[trigger] t[j].1 by {
        assert(s[i].1 >= s[j].1);
    }
    assert forall|i: int, j: int| 0 <= i < j < t.len() implies #[trigger] t[i].0 != #[trigger] t[j].0 by {
        assert(s[i].0 != s[j].0);
    }
    assert forall|i: int| 0 <= i < t.len() implies #[trigger] t[i].1 > 0 by {
        assert(s[i].1 > 0);
    }
}

proof fn lemma_apply_balances_ordered(v: SettingsView, us: Seq<BalanceUpdate>)
    requires
        rankings_ordered(v),
    ensures
        rankings_ordered(apply_balances(v, us).0),
    decreases us.len(),
{
    if us.len() > 0 {
        lemma_apply_balances_ordered(v, us.drop_last());
        let (v0, e0) = apply_balances(v, us.drop_last());
        if e0 is None {
            if let Ok(t) = balance_amounts(us.last()) {
                lemma_update_rank_keeps_order(v0.rank_zhu.1, us.last().address@, t.0);
                lemma_update_rank_keeps_order(v0.rank_sat.1, us.last().address@, t.1);
                lemma_update_rank_keeps_order(v0.rank_dia.1, us.last().address@, t.2);
            }
        }
    }
}

/// Law: a ranking refresh keeps the three rankings ordered, and a finished
/// one leaves at most 200 entries in each, counted.
pub proof fn lemma_update_ranking_keeps_order(v: SettingsView, us: Seq<BalanceUpdate>)
    requires
        rankings_ordered(v),
    ensures
        rankings_ordered(apply_balances(v, us).0),
        rankings_ordered(truncate_rankings(apply_balances(v, us).0)),
        truncate_rankings(apply_balances(v, us).0).rank_zhu.1.len() <= 200,
        truncate_rankings(apply_balances(v, us).0).rank_sat.1.len() <= 200,
        truncate_rankings(apply_balances(v, us).0).rank_dia.1.len() <= 200,
        truncate_rankings(apply_balances(v, us).0).rank_zhu.0 as nat == truncate_rankings(
            apply_balances(v, us).0,
        ).rank_zhu.1.len(),
        truncate_rankings(apply_balances(v, us).0).rank_sat.0 as nat == truncate_rankings(
            apply_balances(v, us).0,
        ).rank_sat.1.len(),
        truncate_rankings(apply_balances(v, us).0).rank_dia.0 as nat == truncate_rankings(
            apply_balances(v, us).0,
        ).rank_dia.1.len(),
{
    lemma_apply_balances_ordered(v, us);
    let w = apply_balances(v, us).0;
    if w.rank_zhu.1.len() > 200 {
        lemma_take_ordered(w.rank_zhu.1, 200);
    }
    if w.rank_sat.1.len() > 200 {
        lemma_take_ordered(w.rank_sat.1, 200);
    }
    if w.rank_dia.1.len() > 200 {
        lemma_take_ordered(w.rank_dia.1, 200);
    }
}

/// All three rankings are sorted.
pub open spec fn rankings_sorted(v: SettingsView) -> bool {
    &&& ranking_sorted(v.rank_zhu.1)
    &&& ranking_sorted(v.rank_sat.1)
    &&& ranking_sorted(v.rank_dia.1)
}

proof fn lemma_take_sorted(s: Seq<(Seq<u8>, u64)>, n: int)
    requires
        ranking_sorted(s),
        0 <= n <= s.len(),
    ensures
        ranking_sorted(s.take(n)),
{
    let t = s.take(n);
    assert forall|i: int, j: int| 0 <= i < j < t.len() implies #[trigger] t[i].1 >= #[trigger] t[j].1 by {
        assert(s[i].1 >= s[j].1);
    }
    assert forall|i: int, j: int| 0 <= i < j < t.len() implies #[trigger] t[i].0 != #[trigger] t[j].0 by {
        assert(s[i].0 != s[j].0);
    }
}

proof fn lemma_apply_balances_sorted(v: SettingsView, us: Seq<BalanceUpdate>)
    requires
        rankings_sorted(v),
    ensures
        rankings_sorted(apply_balances(v, us).0),
    decreases us.len(),
{
    if us.len() > 0 {
        lemma_apply_balances_sorted(v, us.drop_last());
        let (v0, e0) = apply_balances(v, us.drop_last());
        if e0 is None {
            if let Ok(t) = balance_amounts(us.last()) {
                lemma_update_rank_keeps_sorted(v0.rank_zhu.1, us.last().address@, t.0);
                lemma_update_rank_keeps_sorted(v0.rank_sat.1, us.last().address@, t.1);
                lemma_update_rank_keeps_sorted(v0.rank_dia.1, us.last().address@, t.2);
            }
        }
    }
}

/// Law: a ranking refresh keeps the three rankings sorted, highest balance
/// first with each address once, whatever balances they held.
pub proof fn lemma_update_ranking_keeps_sorted(v: SettingsView, us: Seq<BalanceUpdate>)
    requires
        rankings_sorted(v),
    ensures
        rankings_sorted(apply_balances(v, us).0),
        rankings_sorted(truncate_rankings(apply_balances(v, us).0)),
{
    lemma_apply_balances_sorted(v, us);
    let w = apply_balances(v, us).0;
    if w.rank_zhu.1.len() > 200 {
        lemma_take_sorted(w.rank_zhu.1, 200);
    }
    if w.rank_sat.1.len() > 200 {
        lemma_take_sorted(w.rank_sat.1, 200);
    }
    if w.rank_dia.1.len() > 200 {
        lemma_take_sorted(w.rank_dia.1, 200);
    }
}

/// `k` is the last update of address `a` in `us`.
pub open spec fn last_update_of(us: Seq<BalanceUpdate>, a: Seq<u8>, k: int) -> bool {
    &&& 0 <= k < us.len()
    &&& us[k].address@ == a
    &&& forall|j: int| k < j < us.len() ==> #[trigger] us[j].address@ != a
}

/// The entries of `a` in a ranking all hold `amount`, and there is one
/// exactly when `amount` is positive.
pub open spec fn rank_entry_is(s: Seq<(Seq<u8>, u64)>, a: Seq<u8>, amount: u64) -> bool {
    &&& forall|x: (Seq<u8>, u64)| #[trigger] s.contains(x) && x.0 == a ==> x.1 == amount
    &&& (amount > 0 <==> s.contains((a, amount)))
}

/// The entries of `a` in a ranking all hold `amount`, which is positive.
pub open spec fn rank_entry_at_most(s: Seq<(Seq<u8>, u64)>, a: Seq<u8>, amount: u64) -> bool {
    forall|x: (Seq<u8>, u64)| #[trigger] s.contains(x) && x.0 == a ==> x.1 == amount && amount > 0
}

proof fn lemma_remove_address_contains(s: Seq<(Seq<u8>, u64)>, b: Seq<u8>, x: (Seq<u8>, u64))
    requires
        x.0 != b,
    ensures
        s.contains(x) <==> remove_address(s, b).contains(x),
    decreases s.len(),
{
    if s.len() > 0 {
        let s0 = s.drop_last();
        lemma_remove_address_contains(s0, b, x);
        let t = remove_address(s0, b);
        assert(s =~= s0.push(s.last()));
        if s.contains(x) {
            let k = choose|k: int| 0 <= k < s.len() && s[k] == x;
            if k < s0.len() {
                assert(s0[k] == x);
                assert(s0.contains(x));
                let m = choose|m: int| 0 <= m < t.len() && t[m] == x;
                if s.last().0 != b {
                    assert(t.push(s.last())[m] == x);
                }
            } else {
                assert(t.push(s.last())[t.len() as int] == x);
            }
        }
        if remove_address(s, b).contains(x) {
            let r = remove_address(s, b);
            let k = choose|k: int| 0 <= k < r.len() && r[k] == x;
            if k < t.len() {
                assert(t[k] == x);
                assert(t.contains(x));
                let m = choose|m: int| 0 <= m < s0.len() && s0[m] == x;
                assert(s[m] == x);
            } else {
                assert(s[s.len() - 1] == x);
            }
        }
    }
}

proof fn lemma_update_rank_other(s: Seq<(Seq<u8>, u64)>, b: Seq<u8>, amount: u64, a: Seq<u8>, e: u64)
    requires
        a != b,
        rank_entry_is(s, a, e),
    ensures
        rank_entry_is(update_rank_spec(s, b, amount), a, e),
{
    let u = update_rank_spec(s, b, amount);
    lemma_update_rank_content(s, b, amount);
    assert forall|x: (Seq<u8>, u64)| x.0 == a implies (s.contains(x) <==> u.contains(x)) by {
        lemma_remove_address_contains(s, b, x);
        lemma_remove_address_contains(u, b, x);
    }
    assert forall|x: (Seq<u8>, u64)| #[trigger] u.contains(x) && x.0 == a implies x.1 == e by {
        assert(s.contains(x));
    }
    assert(u.contains((a, e)) <==> s.contains((a, e)));
}

proof fn lemma_update_rank_self(s: Seq<(Seq<u8>, u64)>, a: Seq<u8>, amount: u64)
    ensures
        rank_entry_is(update_rank_spec(s, a, amount), a, amount),
{
    let u = update_rank_spec(s, a, amount);
    lemma_update_rank_content(s, a, amount);
    assert forall|x: (Seq<u8>, u64)| #[trigger] u.contains(x) && x.0 == a implies x.1 == amount by {
        let k = choose|k: int| 0 <= k < u.len() && u[k] == x;
        assert(u[k].0 == a);
    }
}

/// Law: after a ranking refresh that meets no conversion error, the last
/// balance given for an address decides its entries: in each ranking the
/// address has one entry, with that amount, exactly when the amount is
/// positive.
pub proof fn lemma_refresh_last_balance(v: SettingsView, us: Seq<BalanceUpdate>, a: Seq<u8>, k: int)
    requires
        last_update_of(us, a, k),
        apply_balances(v, us).1 is None,
    ensures
        balance_amounts(us[k]) is Ok,
        ({
            let t = balance_amounts(us[k])->Ok_0;
            let w = apply_balances(v, us).0;
            &&& rank_entry_is(w.rank_zhu.1, a, t.0)
            &&& rank_entry_is(w.rank_sat.1, a, t.1)
            &&& rank_entry_is(w.rank_dia.1, a, t.2)
        }),
    decreases us.len(),
{
    let u0 = us.drop_last();
    let (v0, e0) = apply_balances(v, u0);
    let b = us.last().address@;
    let tl = balance_amounts(us.last())->Ok_0;
    if k == us.len() - 1 {
        lemma_update_rank_self(v0.rank_zhu.1, a, tl.0);
        lemma_update_rank_self(v0.rank_sat.1, a, tl.1);
        lemma_update_rank_self(v0.rank_dia.1, a, tl.2);
    } else {
        assert(us[us.len() - 1].address@ != a);
        assert forall|j: int| k < j < u0.len() implies #[trigger] u0[j].address@ != a by {
            assert(us[j].address@ != a);
        }
        assert(u0[k] == us[k]);
        lemma_refresh_last_balance(v, u0, a, k);
        let t = balance_amounts(us[k])->Ok_0;
        lemma_update_rank_other(v0.rank_zhu.1, b, tl.0, a, t.0);
        lemma_update_rank_other(v0.rank_sat.1, b, tl.1, a, t.1);
        lemma_update_rank_other(v0.rank_dia.1, b, tl.2, a, t.2);
    }
}

proof fn lemma_take_entry(s: Seq<(Seq<u8>, u64)>, a: Seq<u8>, amount: u64)
    requires
        rank_entry_is(s, a, amount),
    ensures
        rank_entry_at_most(truncate_rank_spec((0, s)).1, a, amount),
{
    let t = truncate_rank_spec((0, s)).1;
    assert forall|x: (Seq<u8>, u64)| #[trigger] t.contains(x) && x.0 == a implies x.1 == amount && amount > 0 by {
        let k = choose|k: int| 0 <= k < t.len() && t[k] == x;
        assert(s[k] == x);
        assert(s.contains(x));
    }
}

/// Law: after a finished ranking refresh the last balance given for an
/// address decides its entries: an address whose amount is 0 is absent,
/// and one that is present holds that amount.
pub proof fn lemma_refresh_last_balance_kept(v: SettingsView, us: Seq<BalanceUpdate>, a: Seq<u8>, k: int)
    requires
        last_update_of(us, a, k),
        apply_balances(v, us).1 is None,
    ensures
        balance_amounts(us[k]) is Ok,
        ({
            let t = balance_amounts(us[k])->Ok_0;
            let f = truncate_rankings(apply_balances(v, us).0);
            &&& rank_entry_at_most(f.rank_zhu.1, a, t.0)
            &&& rank_entry_at_most(f.rank_sat.1, a, t.1)
            &&& rank_entry_at_most(f.rank_dia.1, a, t.2)
        }),
{
    lemma_refresh_last_balance(v, us, a, k);
    let t = balance_amounts(us[k])->Ok_0;
    let w = apply_balances(v, us).0;
    lemma_take_entry(w.rank_zhu.1, a, t.0);
    lemma_take_entry(w.rank_sat.1, a, t.1);
    lemma_take_entry(w.rank_dia.1, a, t.2);
    assert(truncate_rank_spec((0, w.rank_zhu.1)).1 == truncate_rank_spec(w.rank_zhu).1);
    assert(truncate_rank_spec((0, w.rank_sat.1)).1 == truncate_rank_spec(w.rank_sat).1);
    assert(truncate_rank_spec((0, w.rank_dia.1)).1 == truncate_rank_spec(w.rank_dia).1);
}

/// Law: a finished ranking refresh of sorted rankings that meets no
/// conversion error leaves each ranking sorted (highest balance first, each
/// address once) with at most 200 entries and its count equal to them;
/// the last balance given for an address decides its entries (absent for
/// 0, else holding that amount); and nothing but the rankings changes.
pub proof fn lemma_refresh(v: SettingsView, us: Seq<BalanceUpdate>)
    requires
        rankings_sorted(v),
        apply_balances(v, us).1 is None,
    ensures
        ({
            let f = truncate_rankings(apply_balances(v, us).0);
            &&& rankings_sorted(f)
            &&& f.rank_zhu.1.len() <= 200 && f.rank_zhu.0 as nat == f.rank_zhu.1.len()
            &&& f.rank_sat.1.len() <= 200 && f.rank_sat.0 as nat == f.rank_sat.1.len()
            &&& f.rank_dia.1.len() <= 200 && f.rank_dia.0 as nat == f.rank_dia.1.len()
            &&& f == SettingsView { rank_zhu: f.rank_zhu, rank_sat: f.rank_sat, rank_dia: f.rank_dia, ..v }
            &&& forall|a: Seq<u8>, k: int|
                #[trigger] last_update_of(us, a, k) ==> {
                    let t = balance_amounts(us[k])->Ok_0;
                    &&& balance_amounts(us[k]) is Ok
                    &&& rank_entry_at_most(f.rank_zhu.1, a, t.0)
                    &&& rank_entry_at_most(f.rank_sat.1, a, t.1)
                    &&& rank_entry_at_most(f.rank_dia.1, a, t.2)
                }
        }),
{
    lemma_update_ranking_keeps_sorted(v, us);
    lemma_apply_balances_keeps_rest(v, us);
    assert forall|a: Seq<u8>, k: int| #[trigger] last_update_of(us, a, k) implies {
        let f = truncate_rankings(apply_balances(v, us).0);
        let t = balance_amounts(us[k])->Ok_0;
        &&& balance_amounts(us[k]) is Ok
        &&& rank_entry_at_most(f.rank_zhu.1, a, t.0)
        &&& rank_entry_at_most(f.rank_sat.1, a, t.1)
        &&& rank_entry_at_most(f.rank_dia.1, a, t.2)
    } by {
        lemma_refresh_last_balance_kept(v, us, a, k);
    }
}

} // verus!
