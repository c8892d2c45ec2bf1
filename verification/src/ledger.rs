use vstd::prelude::*;
use crate::account::AccountId;

verus! {

/// Balance stored for `a`; an absent key reads as zero.
pub open spec fn bal_get(m: Map<AccountId, u128>, a: AccountId) -> u128 {
    if m.contains_key(a) {
        m[a]
    } else {
        0
    }
}

/// Blacklist flag stored for `a`; an absent key reads as false.
pub open spec fn flag_get(m: Map<AccountId, bool>, a: AccountId) -> bool {
    if m.contains_key(a) {
        m[a]
    } else {
        false
    }
}

/// The balance map after crediting `a` by `amount`.
pub open spec fn spec_credit(m: Map<AccountId, u128>, a: AccountId, amount: u128) -> Map<
    AccountId,
    u128,
>
    recommends
        bal_get(m, a) + amount <= u128::MAX,
{
    m.insert(a, (bal_get(m, a) + amount) as u128)
}

/// The balance map after debiting `a` by `amount`.
pub open spec fn spec_debit(m: Map<AccountId, u128>, a: AccountId, amount: u128) -> Map<
    AccountId,
    u128,
>
    recommends
        amount <= bal_get(m, a),
{
    m.insert(a, (bal_get(m, a) - amount) as u128)
}

/// Debit `from`, then credit `to` out of the already-debited map: the
/// single atomic move primitive every transfer funnels through. Reading
/// the destination after the debit makes a move with `from == to` leave
/// the balance unchanged.
pub open spec fn spec_move(m: Map<AccountId, u128>, from: AccountId, to: AccountId, amount: u128) -> Map<
    AccountId,
    u128,
> {
    spec_credit(spec_debit(m, from, amount), to, amount)
}

/// Sum of a sequence of amounts, as an unbounded integer.
pub open spec fn spec_sum(amts: Seq<u128>) -> int
    decreases amts.len(),
{
    if amts.len() == 0 {
        0
    } else {
        spec_sum(amts.drop_last()) + amts.last()
    }
}

/// Every element of the sum is non-negative, so the sum is too.
pub proof fn lemma_sum_nonneg(amts: Seq<u128>)
    ensures
        spec_sum(amts) >= 0,
    decreases amts.len(),
{
    if amts.len() > 0 {
        lemma_sum_nonneg(amts.drop_last());
    }
}

/// A prefix never sums to more than the whole sequence.
pub proof fn lemma_sum_take_le(amts: Seq<u128>, j: int)
    requires
        0 <= j <= amts.len(),
    ensures
        spec_sum(amts.take(j)) <= spec_sum(amts),
    decreases amts.len() - j,
{
    if j < amts.len() {
        assert(amts.take(j + 1).drop_last() =~= amts.take(j));
        assert(amts.take(j + 1).last() == amts[j]);
        lemma_sum_take_le(amts, j + 1);
    } else {
        assert(amts.take(j) =~= amts);
    }
}

/// Sum of every stored balance: the ledger's total supply.
pub open spec fn spec_total(m: Map<AccountId, u128>) -> int
    recommends
        m.dom().finite(),
{
    m.dom().fold(0int, |acc: int, k: AccountId| acc + m[k])
}

/// An empty ledger holds a total supply of zero.
pub proof fn lemma_total_empty()
    ensures
        spec_total(Map::<AccountId, u128>::empty()) == 0,
{
    let m = Map::<AccountId, u128>::empty();
    let f = |acc: int, k: AccountId| acc + m[k];
    assert(m.dom() =~= Set::<AccountId>::empty());
    vstd::set::fold::lemma_fold_empty(0int, f);
}

/// Folding the balances of `m1` and of `m2` over the same index set
/// gives the same sum when the two maps agree on that set.
proof fn lemma_sum_agree(s: Set<AccountId>, m1: Map<AccountId, u128>, m2: Map<AccountId, u128>)
    requires
        s.finite(),
        forall|k: AccountId| s.contains(k) ==> m1[k] == m2[k],
    ensures
        s.fold(0int, |acc: int, k: AccountId| acc + m1[k]) == s.fold(
            0int,
            |acc: int, k: AccountId| acc + m2[k],
        ),
{
    let f1 = |acc: int, k: AccountId| acc + m1[k];
    let f2 = |acc: int, k: AccountId| acc + m2[k];
    let pred = |t: Set<AccountId>|
        (forall|k: AccountId| t.contains(k) ==> m1[k] == m2[k]) ==> t.fold(0int, f1) == t.fold(
            0int,
            f2,
        );
    assert(pred(Set::<AccountId>::empty())) by {
        vstd::set::fold::lemma_fold_empty(0int, f1);
        vstd::set::fold::lemma_fold_empty(0int, f2);
    }
    assert forall|t: Set<AccountId>, a: AccountId|
        pred(t) && t.finite() && !t.contains(a) implies #[trigger] pred(t.insert(a)) by {
        if forall|k: AccountId| t.insert(a).contains(k) ==> m1[k] == m2[k] {
            assert forall|k: AccountId| t.contains(k) implies m1[k] == m2[k] by {
                assert(t.insert(a).contains(k));
            }
            assert(t.insert(a).contains(a));
            assert(m1[a] == m2[a]);
            vstd::set::fold::lemma_fold_insert(t, 0int, f1, a);
            vstd::set::fold::lemma_fold_insert(t, 0int, f2, a);
        }
    }
    vstd::set::fold::lemma_finite_set_induct(s, pred);
}

/// Overwriting one key moves the total by the difference between the
/// new value and whatever the key held before.
pub proof fn lemma_total_insert(m: Map<AccountId, u128>, k: AccountId, v: u128)
    requires
        m.dom().finite(),
    ensures
        spec_total(m.insert(k, v)) == spec_total(m) + v - bal_get(m, k),
{
    let m2 = m.insert(k, v);
    let f = |acc: int, ka: AccountId| acc + m[ka];
    let f2 = |acc: int, ka: AccountId| acc + m2[ka];
    if m.dom().contains(k) {
        let s0 = m.dom().remove(k);
        assert(s0.finite());
        assert(!s0.contains(k));
        assert(m2.dom() =~= s0.insert(k));
        assert(m.dom() =~= s0.insert(k));
        assert forall|ka: AccountId| s0.contains(ka) implies m[ka] == m2[ka] by {
            assert(ka != k);
        }
        lemma_sum_agree(s0, m, m2);
        vstd::set::fold::lemma_fold_insert(s0, 0int, f, k);
        vstd::set::fold::lemma_fold_insert(s0, 0int, f2, k);
        assert(spec_total(m) == s0.fold(0int, f) + m[k]);
        assert(spec_total(m2) == s0.fold(0int, f2) + m2[k]);
        assert(m2[k] == v);
        assert(bal_get(m, k) == m[k]);
    } else {
        let s0 = m.dom();
        assert(m2.dom() =~= s0.insert(k));
        assert forall|ka: AccountId| s0.contains(ka) implies m[ka] == m2[ka] by {
            assert(ka != k);
        }
        lemma_sum_agree(s0, m, m2);
        vstd::set::fold::lemma_fold_insert(s0, 0int, f2, k);
        assert(spec_total(m2) == s0.fold(0int, f2) + m2[k]);
        assert(m2[k] == v);
        assert(bal_get(m, k) == 0);
    }
}

/// Crediting an account raises the total supply by exactly the amount.
pub proof fn lemma_total_credit(m: Map<AccountId, u128>, a: AccountId, amount: u128)
    requires
        m.dom().finite(),
        bal_get(m, a) + amount <= u128::MAX,
    ensures
        spec_total(spec_credit(m, a, amount)) == spec_total(m) + amount,
{
    lemma_total_insert(m, a, (bal_get(m, a) + amount) as u128);
}

/// Debiting an account lowers the total supply by exactly the amount.
pub proof fn lemma_total_debit(m: Map<AccountId, u128>, a: AccountId, amount: u128)
    requires
        m.dom().finite(),
        amount <= bal_get(m, a),
    ensures
        spec_total(spec_debit(m, a, amount)) == spec_total(m) - amount,
{
    lemma_total_insert(m, a, (bal_get(m, a) - amount) as u128);
}

/// A move debits exactly what it credits, so the total supply is
/// conserved — also when `from == to`.
pub proof fn lemma_total_move(m: Map<AccountId, u128>, from: AccountId, to: AccountId, amount: u128)
    requires
        m.dom().finite(),
        amount <= bal_get(m, from),
        bal_get(spec_debit(m, from, amount), to) + amount <= u128::MAX,
    ensures
        spec_total(spec_move(m, from, to, amount)) == spec_total(m),
        spec_move(m, from, to, amount).dom().finite(),
{
    let d = spec_debit(m, from, amount);
    lemma_total_debit(m, from, amount);
    assert(d.dom() =~= m.dom().insert(from));
    lemma_total_credit(d, to, amount);
    assert(spec_move(m, from, to, amount).dom() =~= d.dom().insert(to));
}

} // verus!
