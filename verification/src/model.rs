use vstd::prelude::*;

verus! {

use crate::account::AccountId;

/// One persisted balance slot: an account together with the points it holds.
/// Absence of a slot for an account means a balance of zero.
#[derive(Clone, Copy, Debug, Eq, PartialEq, Structural)]
pub(crate) struct BalanceEntry {
    pub(crate) account: AccountId,
    pub(crate) amount: i128,
}

/// No two balance slots name the same account.
pub(crate) open spec fn unique_accounts(s: Seq<BalanceEntry>) -> bool {
    forall|i: int, j: int|
        0 <= i < s.len() && 0 <= j < s.len() && i != j ==> s[i].account != s[j].account
}

/// Every stored balance is nonnegative.
pub(crate) open spec fn all_nonneg(s: Seq<BalanceEntry>) -> bool {
    forall|i: int| 0 <= i < s.len() ==> s[i].amount >= 0
}

/// The sum of all stored balances.
pub(crate) open spec fn sum_points(s: Seq<BalanceEntry>) -> int
    decreases s.len(),
{
    if s.len() == 0 {
        0
    } else {
        sum_points(s.drop_last()) + s.last().amount
    }
}

/// The balance of account `a`: the amount of its slot, or 0 if `a` holds no
/// slot.  Scans from the end; with unique accounts the scan order is moot.
pub(crate) open spec fn points_of(s: Seq<BalanceEntry>, a: AccountId) -> int
    decreases s.len(),
{
    if s.len() == 0 {
        0
    } else if s.last().account == a {
        s.last().amount as int
    } else {
        points_of(s.drop_last(), a)
    }
}

/// Whether account `a` holds a balance slot (has ever been touched).
pub(crate) open spec fn has_account(s: Seq<BalanceEntry>, a: AccountId) -> bool {
    exists|i: int| 0 <= i < s.len() && s[i].account == a
}

/// Appending a slot grows the sum by exactly the appended amount.
pub(crate) proof fn lemma_sum_push(s: Seq<BalanceEntry>, e: BalanceEntry)
    ensures
        sum_points(s.push(e)) == sum_points(s) + e.amount,
{
    assert(s.push(e).drop_last() =~= s);
    assert(s.push(e).last() == e);
}

/// Appending a slot sets the appended account's balance and leaves every
/// other balance unchanged.
pub(crate) proof fn lemma_points_push(s: Seq<BalanceEntry>, e: BalanceEntry, a: AccountId)
    ensures
        points_of(s.push(e), a) == if a == e.account {
            e.amount as int
        } else {
            points_of(s, a)
        },
{
    assert(s.push(e).drop_last() =~= s);
    assert(s.push(e).last() == e);
}

/// Replacing the slot at index `i` moves the sum by the difference of the
/// amounts.
pub(crate) proof fn lemma_sum_update(s: Seq<BalanceEntry>, i: int, e: BalanceEntry)
    requires
        0 <= i < s.len(),
    ensures
        sum_points(s.update(i, e)) == sum_points(s) - s[i].amount + e.amount,
    decreases s.len(),
{
    let t = s.update(i, e);
    if i == s.len() - 1 {
        assert(t.drop_last() =~= s.drop_last());
        assert(t.last() == e);
    } else {
        assert(t.last() == s.last());
        assert(t.drop_last() =~= s.drop_last().update(i, e));
        lemma_sum_update(s.drop_last(), i, e);
    }
}

/// Replacing the slot at index `i` by one for the same account sets that
/// account's balance and leaves every other balance unchanged.
pub(crate) proof fn lemma_points_update(s: Seq<BalanceEntry>, i: int, e: BalanceEntry, a: AccountId)
    requires
        0 <= i < s.len(),
        unique_accounts(s),
        e.account == s[i].account,
    ensures
        points_of(s.update(i, e), a) == if a == s[i].account {
            e.amount as int
        } else {
            points_of(s, a)
        },
    decreases s.len(),
{
    let t = s.update(i, e);
    if i == s.len() - 1 {
        assert(t.drop_last() =~= s.drop_last());
        assert(t.last() == e);
    } else {
        assert(t.last() == s.last());
        assert(t.drop_last() =~= s.drop_last().update(i, e));
        assert(unique_accounts(s.drop_last())) by {
            assert(forall|k: int| 0 <= k < s.len() - 1 ==> s.drop_last()[k] == s[k]);
        }
        lemma_points_update(s.drop_last(), i, e, a);
    }
}

/// The balance of the account of the slot at index `i` is that slot's amount.
pub(crate) proof fn lemma_points_at_index(s: Seq<BalanceEntry>, i: int)
    requires
        0 <= i < s.len(),
        unique_accounts(s),
    ensures
        points_of(s, s[i].account) == s[i].amount,
    decreases s.len(),
{
    if i == s.len() - 1 {
    } else {
        assert(s.last().account != s[i].account);
        assert(unique_accounts(s.drop_last())) by {
            assert(forall|k: int| 0 <= k < s.len() - 1 ==> s.drop_last()[k] == s[k]);
        }
        assert(s.drop_last()[i] == s[i]);
        lemma_points_at_index(s.drop_last(), i);
    }
}

/// An account without a slot has balance zero.
pub(crate) proof fn lemma_points_absent(s: Seq<BalanceEntry>, a: AccountId)
    requires
        !has_account(s, a),
    ensures
        points_of(s, a) == 0,
    decreases s.len(),
{
    if s.len() > 0 {
        assert(s.last().account != a) by {
            assert(s[s.len() - 1] == s.last());
        }
        assert(!has_account(s.drop_last(), a)) by {
            if has_account(s.drop_last(), a) {
                let i = choose|i: int|
                    0 <= i < s.drop_last().len() && s.drop_last()[i].account == a;
                assert(s[i].account == a);
            }
        }
        lemma_points_absent(s.drop_last(), a);
    }
}

/// With all balances nonnegative, so is their sum.
pub(crate) proof fn lemma_sum_nonneg(s: Seq<BalanceEntry>)
    requires
        all_nonneg(s),
    ensures
        sum_points(s) >= 0,
    decreases s.len(),
{
    if s.len() > 0 {
        assert(all_nonneg(s.drop_last())) by {
            assert(forall|k: int| 0 <= k < s.len() - 1 ==> s.drop_last()[k] == s[k]);
        }
        lemma_sum_nonneg(s.drop_last());
        assert(s.last().amount >= 0) by {
            assert(s[s.len() - 1] == s.last());
        }
    }
}

/// With all balances nonnegative, every balance lies between zero and the sum
/// of all balances, and the sum itself is nonnegative.
pub(crate) proof fn lemma_points_bounds(s: Seq<BalanceEntry>, a: AccountId)
    requires
        all_nonneg(s),
    ensures
        0 <= points_of(s, a),
        points_of(s, a) <= sum_points(s),
        sum_points(s) >= 0,
    decreases s.len(),
{
    if s.len() > 0 {
        assert(all_nonneg(s.drop_last())) by {
            assert(forall|k: int| 0 <= k < s.len() - 1 ==> s.drop_last()[k] == s[k]);
        }
        lemma_points_bounds(s.drop_last(), a);
        assert(s.last().amount >= 0) by {
            assert(s[s.len() - 1] == s.last());
        }
    }
}

} // verus!
