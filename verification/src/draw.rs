//! The weighted draw: the active-participant list, the reduction of a raw
//! random value to a winning ticket index, and the cumulative walk that
//! turns the index into a winner. A participant holding `t` of the `n`
//! active tickets owns exactly `t` of the `n` possible winning indices.

use vstd::prelude::*;

use crate::account::DepositorAccount;
use crate::actions::TokenTransfer;
use crate::sums::{
    all_nonnegative, lemma_sum_push, lemma_sum_take_all, lemma_sum_take_monotonic,
    lemma_sum_take_succ, sum_tickets,
};

verus! {

/// What a successful draw reports: the winner, and the payout transfer the
/// embedder must perform.
#[derive(Clone, Copy, Debug, PartialEq, Eq)]
pub struct DrawOutcome {
    /// The selected participant.
    pub winner: u64,
    /// The whole prize fund, moving from the pool's escrow to the winner.
    pub payout: TokenTransfer,
}

/// The registry restricted to rows with tickets, in registry order: the
/// participant list a draw samples from.
pub open spec fn active_accounts(s: Seq<DepositorAccount>) -> Seq<DepositorAccount>
    decreases s.len(),
{
    if s.len() == 0 {
        Seq::empty()
    } else if s.last().tickets > 0 {
        active_accounts(s.drop_last()).push(s.last())
    } else {
        active_accounts(s.drop_last())
    }
}

/// Whether the winning index `index` falls in participant `i`'s run of the
/// cumulative ticket count: at or past the tickets before it, short of the
/// tickets through it.
pub open spec fn selects(p: Seq<DepositorAccount>, index: int, i: int) -> bool {
    &&& 0 <= i < p.len()
    &&& sum_tickets(p.take(i)) <= index
    &&& index < sum_tickets(p.take(i + 1))
}

/// The participant whose cumulative run holds the winning index.
pub open spec fn selected_index(p: Seq<DepositorAccount>, index: int) -> int {
    choose|i: int| selects(p, index, i)
}

/// The winning ticket index a raw random value reduces to.
pub open spec fn draw_winning_index(s: Seq<DepositorAccount>, random_value: u128) -> int {
    (random_value as int) % sum_tickets(active_accounts(s))
}

/// The winner a draw over registry `s` selects for a given random value.
pub open spec fn draw_winner(s: Seq<DepositorAccount>, random_value: u128) -> u64 {
    let p = active_accounts(s);
    p[selected_index(p, draw_winning_index(s, random_value))].owner
}

/// Extending the scanned prefix by one row extends the participant list
/// exactly when that row holds tickets.
pub proof fn lemma_active_take_succ(s: Seq<DepositorAccount>, i: int)
    requires
        0 <= i < s.len(),
    ensures
        s[i].tickets > 0 ==> active_accounts(s.take(i + 1))
            == active_accounts(s.take(i)).push(s[i]),
        s[i].tickets <= 0 ==> active_accounts(s.take(i + 1)) == active_accounts(s.take(i)),
{
    assert(s.take(i + 1).drop_last() =~= s.take(i));
    assert(s.take(i + 1).last() == s[i]);
}

/// The full registry is its own full prefix.
pub proof fn lemma_active_take_all(s: Seq<DepositorAccount>)
    ensures
        active_accounts(s.take(s.len() as int)) == active_accounts(s),
{
    assert(s.take(s.len() as int) =~= s);
}

/// Every participant holds tickets and is a row of the registry.
pub proof fn lemma_active_rows(s: Seq<DepositorAccount>)
    ensures
        forall|k: int| 0 <= k < active_accounts(s).len()
            ==> (#[trigger] active_accounts(s)[k]).tickets > 0,
        forall|k: int| 0 <= k < active_accounts(s).len()
            ==> exists|i: int| 0 <= i < s.len() && s[i] == #[trigger] active_accounts(s)[k],
    decreases s.len(),
{
    if s.len() > 0 {
        lemma_active_rows(s.drop_last());
        assert(forall|i: int| 0 <= i < s.len() - 1 ==> s.drop_last()[i] == s[i]);
        assert forall|k: int| 0 <= k < active_accounts(s).len()
            implies exists|i: int|
                0 <= i < s.len() && s[i] == #[trigger] active_accounts(s)[k] by {
            if s.last().tickets > 0 && k == active_accounts(s).len() - 1 {
                assert(s[s.len() - 1] == active_accounts(s)[k]);
            } else {
                assert(active_accounts(s)[k] == active_accounts(s.drop_last())[k]);
                let i = choose|i: int|
                    0 <= i < s.drop_last().len()
                        && s.drop_last()[i] == active_accounts(s.drop_last())[k];
                assert(s[i] == active_accounts(s)[k]);
            }
        }
    }
}

/// Rows without tickets contribute nothing: the participants' tickets sum
/// to the registry's ticket sum.
pub proof fn lemma_active_sum(s: Seq<DepositorAccount>)
    requires
        all_nonnegative(s),
    ensures
        sum_tickets(active_accounts(s)) == sum_tickets(s),
    decreases s.len(),
{
    if s.len() > 0 {
        assert(all_nonnegative(s.drop_last())) by {
            assert(forall|i: int| 0 <= i < s.len() - 1 ==> s.drop_last()[i] == s[i]);
        }
        lemma_active_sum(s.drop_last());
        if s.last().tickets > 0 {
            lemma_sum_push(active_accounts(s.drop_last()), s.last());
        } else {
            assert(s.last().tickets == 0);
        }
    }
}

/// The participant list of a non-negative registry is non-negative.
pub proof fn lemma_active_nonnegative(s: Seq<DepositorAccount>)
    requires
        all_nonnegative(s),
    ensures
        all_nonnegative(active_accounts(s)),
{
    lemma_active_rows(s);
    assert forall|k: int| 0 <= k < active_accounts(s).len()
        implies (#[trigger] active_accounts(s)[k]).balance >= 0
            && active_accounts(s)[k].tickets >= 0 by {
        let i = choose|i: int| 0 <= i < s.len() && s[i] == active_accounts(s)[k];
        assert(s[i].balance >= 0 && s[i].tickets >= 0);
    }
}

/// Every index below the ticket sum falls in some participant's run.
pub proof fn lemma_selects_exists(p: Seq<DepositorAccount>, index: int)
    requires
        0 <= index < sum_tickets(p),
    ensures
        exists|i: int| selects(p, index, i),
    decreases p.len(),
{
    assert(p.len() > 0);
    let last: int = p.len() - 1;
    assert(p.take(last) =~= p.drop_last());
    if index < sum_tickets(p.drop_last()) {
        lemma_selects_exists(p.drop_last(), index);
        let i = choose|i: int| selects(p.drop_last(), index, i);
        assert(p.drop_last().take(i) =~= p.take(i));
        assert(p.drop_last().take(i + 1) =~= p.take(i + 1));
        assert(selects(p, index, i));
    } else {
        lemma_sum_take_all(p);
        assert(selects(p, index, last));
    }
}

/// Runs do not overlap: only one participant's run holds a given index.
pub proof fn lemma_selects_unique(p: Seq<DepositorAccount>, index: int, i: int, j: int)
    requires
        all_nonnegative(p),
        selects(p, index, i),
        selects(p, index, j),
    ensures
        i == j,
{
    if i < j {
        lemma_sum_take_monotonic(p, i + 1, j);
    }
    if j < i {
        lemma_sum_take_monotonic(p, j + 1, i);
    }
}

/// `selected_index` picks the one participant whose run holds the index.
pub proof fn lemma_selected_index(p: Seq<DepositorAccount>, index: int, i: int)
    requires
        all_nonnegative(p),
        selects(p, index, i),
    ensures
        selected_index(p, index) == i,
{
    assert(selects(p, index, selected_index(p, index)));
    lemma_selects_unique(p, index, selected_index(p, index), i);
}

/// A draw with exactly one active participant selects that participant,
/// whatever the random value.
pub proof fn lemma_single_active_participant_wins(s: Seq<DepositorAccount>, random_value: u128)
    requires
        all_nonnegative(s),
        active_accounts(s).len() == 1,
    ensures
        draw_winner(s, random_value) == active_accounts(s)[0].owner,
{
    let p = active_accounts(s);
    lemma_active_rows(s);
    lemma_active_nonnegative(s);
    assert(p.drop_last() =~= Seq::<DepositorAccount>::empty());
    assert(sum_tickets(Seq::<DepositorAccount>::empty()) == 0);
    assert(p.last() == p[0]);
    assert(sum_tickets(p) == p[0].tickets);
    let index = draw_winning_index(s, random_value);
    assert(0 <= index < sum_tickets(p)) by {
        vstd::arithmetic::div_mod::lemma_mod_bound(random_value as int, sum_tickets(p));
    }
    assert(p.take(0) =~= Seq::<DepositorAccount>::empty());
    assert(p.take(1) =~= p);
    assert(selects(p, index, 0));
    lemma_selected_index(p, index, 0);
}

/// A draw over a registry that holds tickets always selects a registered
/// row with tickets, whatever the random value; and the winning index lies
/// below the active ticket total, which equals the registry's ticket sum.
pub proof fn lemma_draw_winner_is_active(s: Seq<DepositorAccount>, random_value: u128)
    requires
        all_nonnegative(s),
        sum_tickets(s) > 0,
    ensures
        sum_tickets(active_accounts(s)) == sum_tickets(s),
        0 <= draw_winning_index(s, random_value) < sum_tickets(active_accounts(s)),
        exists|i: int| 0 <= i < s.len()
            && (#[trigger] s[i]).owner == draw_winner(s, random_value) && s[i].tickets > 0,
{
    let p = active_accounts(s);
    lemma_active_sum(s);
    lemma_active_nonnegative(s);
    lemma_active_rows(s);
    let index = draw_winning_index(s, random_value);
    assert(0 <= index < sum_tickets(p)) by {
        vstd::arithmetic::div_mod::lemma_mod_bound(random_value as int, sum_tickets(p));
    }
    lemma_selects_exists(p, index);
    let k = choose|k: int| selects(p, index, k);
    lemma_selected_index(p, index, k);
    let i = choose|i: int| 0 <= i < s.len() && s[i] == p[k];
    assert(s[i].owner == draw_winner(s, random_value) && s[i].tickets > 0);
}

/// The derived-entropy randomness strategy: mix the host ledger timestamp,
/// the ledger sequence number, and the draw nonce by multiply-and-add. The
/// multiplications cannot wrap: the mix stays far below the word size.
pub fn derive_seed(timestamp: u64, sequence: u32, nonce: u64) -> (seed: u128)
    ensures
        seed == ((timestamp as int) * 31 + (sequence as int)) * 31 + (nonce as int),
{
    let wide_timestamp: u128 = timestamp as u128;
    let wide_sequence: u128 = sequence as u128;
    let wide_nonce: u128 = nonce as u128;
    (wide_timestamp * 31 + wide_sequence) * 31 + wide_nonce
}

/// Reduce a raw random value modulo the active ticket total.
pub fn winning_index(random_value: u128, active_total: i128) -> (index: i128)
    requires
        active_total > 0,
    ensures
        0 <= index < active_total,
        index == (random_value as int) % (active_total as int),
{
    proof {
        vstd::arithmetic::div_mod::lemma_mod_bound(random_value as int, active_total as int);
    }
    (random_value % (active_total as u128)) as i128
}

} // verus!
