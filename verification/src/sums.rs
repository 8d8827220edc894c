//! Sums of balances and tickets over a registry, and the facts the ledger
//! needs about them: how a sum moves under `push` and `update`, and that in
//! a non-negative registry every row and every prefix is bounded by the sum.

use vstd::prelude::*;

use crate::account::DepositorAccount;

verus! {

/// The sum of all recorded balances.
pub open spec fn sum_balances(s: Seq<DepositorAccount>) -> int
    decreases s.len(),
{
    if s.len() == 0 {
        0
    } else {
        sum_balances(s.drop_last()) + s.last().balance
    }
}

/// The sum of all recorded tickets.
pub open spec fn sum_tickets(s: Seq<DepositorAccount>) -> int
    decreases s.len(),
{
    if s.len() == 0 {
        0
    } else {
        sum_tickets(s.drop_last()) + s.last().tickets
    }
}

/// Every row is non-negative in both fields.
pub open spec fn all_nonnegative(s: Seq<DepositorAccount>) -> bool {
    forall|i: int| 0 <= i < s.len() ==> s[i].balance >= 0 && s[i].tickets >= 0
}

/// Appending a row adds its fields to the sums.
pub proof fn lemma_sum_push(s: Seq<DepositorAccount>, a: DepositorAccount)
    ensures
        sum_balances(s.push(a)) == sum_balances(s) + a.balance,
        sum_tickets(s.push(a)) == sum_tickets(s) + a.tickets,
{
    assert(s.push(a).drop_last() =~= s);
}

/// Taking one more row adds that row's fields to the prefix sums.
pub proof fn lemma_sum_take_succ(s: Seq<DepositorAccount>, i: int)
    requires
        0 <= i < s.len(),
    ensures
        sum_balances(s.take(i + 1)) == sum_balances(s.take(i)) + s[i].balance,
        sum_tickets(s.take(i + 1)) == sum_tickets(s.take(i)) + s[i].tickets,
{
    assert(s.take(i + 1).drop_last() =~= s.take(i));
    assert(s.take(i + 1).last() == s[i]);
}

/// The whole sequence is its own full prefix.
pub proof fn lemma_sum_take_all(s: Seq<DepositorAccount>)
    ensures
        sum_balances(s.take(s.len() as int)) == sum_balances(s),
        sum_tickets(s.take(s.len() as int)) == sum_tickets(s),
{
    assert(s.take(s.len() as int) =~= s);
}

/// Replacing one row moves the sums by the difference of the fields.
pub proof fn lemma_sum_update(s: Seq<DepositorAccount>, i: int, a: DepositorAccount)
    requires
        0 <= i < s.len(),
    ensures
        sum_balances(s.update(i, a)) == sum_balances(s) - s[i].balance + a.balance,
        sum_tickets(s.update(i, a)) == sum_tickets(s) - s[i].tickets + a.tickets,
    decreases s.len(),
{
    if i == s.len() - 1 {
        assert(s.update(i, a).drop_last() =~= s.drop_last());
        assert(s.update(i, a).last() == a);
    } else {
        assert(s.update(i, a).drop_last() =~= s.drop_last().update(i, a));
        assert(s.update(i, a).last() == s.last());
        assert(s.drop_last()[i] == s[i]);
        lemma_sum_update(s.drop_last(), i, a);
    }
}

/// In a non-negative registry, prefix sums grow from zero up to the total.
pub proof fn lemma_sum_take_bounds(s: Seq<DepositorAccount>, i: int)
    requires
        all_nonnegative(s),
        0 <= i <= s.len(),
    ensures
        0 <= sum_balances(s.take(i)) <= sum_balances(s),
        0 <= sum_tickets(s.take(i)) <= sum_tickets(s),
    decreases s.len() - i,
{
    assert(all_nonnegative(s.take(i))) by {
        assert(forall|j: int| 0 <= j < i ==> s.take(i)[j] == s[j]);
    }
    lemma_sum_nonnegative(s.take(i));
    if i == s.len() {
        lemma_sum_take_all(s);
    } else {
        lemma_sum_take_succ(s, i);
        lemma_sum_take_bounds(s, i + 1);
    }
}

/// In a non-negative registry, a longer prefix sums to at least as much.
pub proof fn lemma_sum_take_monotonic(s: Seq<DepositorAccount>, i: int, j: int)
    requires
        all_nonnegative(s),
        0 <= i <= j <= s.len(),
    ensures
        sum_balances(s.take(i)) <= sum_balances(s.take(j)),
        sum_tickets(s.take(i)) <= sum_tickets(s.take(j)),
    decreases j - i,
{
    if i < j {
        lemma_sum_take_succ(s, j - 1);
        lemma_sum_take_monotonic(s, i, j - 1);
    }
}

/// A sum over a non-negative registry is non-negative.
pub proof fn lemma_sum_nonnegative(s: Seq<DepositorAccount>)
    requires
        all_nonnegative(s),
    ensures
        sum_balances(s) >= 0,
        sum_tickets(s) >= 0,
    decreases s.len(),
{
    if s.len() > 0 {
        assert(all_nonnegative(s.drop_last())) by {
            assert(forall|j: int|
                0 <= j < s.len() - 1 ==> s.drop_last()[j] == s[j]);
        }
        lemma_sum_nonnegative(s.drop_last());
    }
}

/// In a non-negative registry, no single row exceeds the sums.
pub proof fn lemma_row_le_sum(s: Seq<DepositorAccount>, i: int)
    requires
        all_nonnegative(s),
        0 <= i < s.len(),
    ensures
        s[i].balance <= sum_balances(s),
        s[i].tickets <= sum_tickets(s),
{
    lemma_sum_take_succ(s, i);
    lemma_sum_take_bounds(s, i);
    lemma_sum_take_bounds(s, i + 1);
}

} // verus!
