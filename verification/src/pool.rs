//! The pool itself: configuration, the depositor registry with its cached
//! totals, the prize fund, the draw nonce, and the delegation bookkeeping.
//!
//! Every operation is a state transition: it validates, mutates this value,
//! and returns the external action the embedder must perform. A failure
//! returns an error and leaves the value exactly as it was, so the embedder
//! gets the original's all-or-nothing semantics by persisting the new state
//! only when the operation and its external action both succeed. The
//! embedder authenticates callers: a depositor identity handed to `deposit`
//! or `withdraw` must have authorized the call, and the `caller` argument
//! of the privileged operations is who authorized it, checked here against
//! the stored admin.

use vstd::prelude::*;

use crate::account::{
    account_index, balance_of, has_account, lemma_account_index, lemma_account_index_of_match,
    lemma_lookup_push_other, lemma_lookup_update_same_owner, tickets_of, DepositorAccount,
};
use crate::actions::{BlendRequest, BlendRequestKind, Party, TokenTransfer};
use crate::draw::{
    active_accounts, draw_winner, lemma_active_sum, lemma_active_take_all,
    lemma_active_take_succ, selected_index, DrawOutcome,
};
use crate::errors::PoolError;
use crate::sums::{
    all_nonnegative, lemma_row_le_sum, lemma_sum_nonnegative, lemma_sum_push,
    lemma_sum_take_all, lemma_sum_take_bounds, lemma_sum_take_succ, lemma_sum_update,
    sum_balances, sum_tickets,
};

verus! {

/// The supported draw-cycle lengths, in days.
pub open spec fn valid_period(period_days: u32) -> bool {
    period_days == 7 || period_days == 15 || period_days == 30
}

/// The pooled-staking ledger. Created empty by [`LuckyStakePool::new`],
/// configured exactly once by [`LuckyStakePool::initialize`].
pub struct LuckyStakePool {
    /// Whether `initialize` has run; the configuration fields mean nothing
    /// before that, and never change after.
    pub initialized: bool,
    /// The identity whose authorization the privileged operations demand.
    pub admin: u64,
    /// The custody token, as the embedder numbers assets.
    pub token: u64,
    /// The draw-cycle length in days; also the ticket multiplier.
    pub period_days: u32,
    /// The depositor registry, in insertion order, one row per depositor,
    /// never shrinking.
    pub accounts: Vec<DepositorAccount>,
    /// Cached sum of all balances.
    pub total_deposits: i128,
    /// Cached sum of all tickets.
    pub total_tickets: i128,
    /// What the next draw pays out.
    pub prize_fund: i128,
    /// How many draws have executed; varies the derived-entropy seed.
    pub draw_nonce: u64,
    /// The delegate yield pool, once the admin has set one.
    pub blend_pool: Option<u64>,
    /// Principal handed to the delegate pool, excluding accrued yield.
    pub supplied_to_blend: i128,
}

/// Nothing about the pool differs: the error path of every operation
/// guarantees this.
pub open spec fn pool_unchanged(a: LuckyStakePool, b: LuckyStakePool) -> bool {
    &&& same_config(a, b)
    &&& same_ledger(a, b)
    &&& same_delegation(a, b)
    &&& a.prize_fund == b.prize_fund
    &&& a.draw_nonce == b.draw_nonce
}

/// The configuration set at initialization is the same.
pub open spec fn same_config(a: LuckyStakePool, b: LuckyStakePool) -> bool {
    &&& a.initialized == b.initialized
    &&& a.admin == b.admin
    &&& a.token == b.token
    &&& a.period_days == b.period_days
}

/// The registry and its cached totals are the same.
pub open spec fn same_ledger(a: LuckyStakePool, b: LuckyStakePool) -> bool {
    &&& a.accounts@ == b.accounts@
    &&& a.total_deposits == b.total_deposits
    &&& a.total_tickets == b.total_tickets
}

/// The delegation bookkeeping is the same.
pub open spec fn same_delegation(a: LuckyStakePool, b: LuckyStakePool) -> bool {
    &&& a.blend_pool == b.blend_pool
    &&& a.supplied_to_blend == b.supplied_to_blend
}

impl LuckyStakePool {
    /// Well-formedness: what `new` establishes and every operation
    /// preserves. Balances and tickets are non-negative, a zero balance
    /// holds zero tickets, each depositor owns at most one row, the cached
    /// totals equal the live sums, the prize fund is non-negative, an
    /// initialized pool has a supported period, and an uninitialized pool
    /// is empty.
    pub open spec fn wf(self) -> bool {
        &&& all_nonnegative(self.accounts@)
        &&& forall|i: int| 0 <= i < self.accounts@.len()
            ==> ((#[trigger] self.accounts@[i]).balance == 0 ==> self.accounts@[i].tickets == 0)
        &&& forall|i: int, j: int| 0 <= i < j < self.accounts@.len()
            ==> (#[trigger] self.accounts@[i]).owner != (#[trigger] self.accounts@[j]).owner
        &&& self.total_deposits == sum_balances(self.accounts@)
        &&& self.total_tickets == sum_tickets(self.accounts@)
        &&& self.prize_fund >= 0
        &&& (self.initialized ==> valid_period(self.period_days))
        &&& (!self.initialized ==> {
            &&& self.accounts@.len() == 0
            &&& self.period_days == 0
            &&& self.prize_fund == 0
            &&& self.draw_nonce == 0
            &&& self.blend_pool.is_none()
            &&& self.supplied_to_blend == 0
        })
    }

    /// A freshly deployed pool: empty and awaiting `initialize`.
    pub fn new() -> (pool: LuckyStakePool)
        ensures
            pool.wf(),
            !pool.initialized,
    {
        LuckyStakePool {
            initialized: false,
            admin: 0,
            token: 0,
            period_days: 0,
            accounts: Vec::new(),
            total_deposits: 0,
            total_tickets: 0,
            prize_fund: 0,
            draw_nonce: 0,
            blend_pool: None,
            supplied_to_blend: 0,
        }
    }

    /// Configure the pool: set the admin, the custody token and the draw
    /// period. Fails on a pool that is already initialized, and on a period
    /// that is not a supported cycle length. The embedder must have
    /// authenticated `admin` as the caller.
    pub fn initialize(&mut self, admin: u64, token: u64, period_days: u32) -> (result: Result<
        (),
        PoolError,
    >)
        requires
            old(self).wf(),
        ensures
            final(self).wf(),
            result is Err ==> pool_unchanged(*final(self), *old(self)),
            old(self).initialized ==> result == Err::<(), PoolError>(
                PoolError::AlreadyInitialized,
            ),
            !old(self).initialized && !valid_period(period_days) ==> result == Err::<
                (),
                PoolError,
            >(PoolError::InvalidPeriod),
            !old(self).initialized && valid_period(period_days) ==> {
                &&& result == Ok::<(), PoolError>(())
                &&& final(self).initialized
                &&& final(self).admin == admin
                &&& final(self).token == token
                &&& final(self).period_days == period_days
                &&& final(self).accounts@.len() == 0
                &&& final(self).total_deposits == 0
                &&& final(self).total_tickets == 0
                &&& final(self).prize_fund == 0
                &&& final(self).draw_nonce == 0
                &&& final(self).blend_pool.is_none()
                &&& final(self).supplied_to_blend == 0
            },
    {
        if self.initialized {
            return Err(PoolError::AlreadyInitialized);
        }
        if !(period_days == 7 || period_days == 15 || period_days == 30) {
            return Err(PoolError::InvalidPeriod);
        }
        self.initialized = true;
        self.admin = admin;
        self.token = token;
        self.period_days = period_days;
        Ok(())
    }

    /// Credit a deposit: `amount` of principal earns `amount * period_days`
    /// tickets, the depositor's row and the cached totals grow by exactly
    /// that, and a depositor not yet in the registry is appended to it.
    /// Returns the escrow transfer the embedder must perform, pulling
    /// `amount` from the depositor. The embedder must have authenticated
    /// `depositor` as the caller.
    pub fn deposit(&mut self, depositor: u64, amount: i128) -> (result: Result<
        TokenTransfer,
        PoolError,
    >)
        requires
            old(self).wf(),
            old(self).initialized,
            amount > 0 ==> old(self).total_deposits + amount <= i128::MAX,
            amount > 0 ==> old(self).total_tickets + amount * old(self).period_days <= i128::MAX,
        ensures
            final(self).wf(),
            result is Err ==> pool_unchanged(*final(self), *old(self)),
            amount <= 0 ==> result == Err::<TokenTransfer, PoolError>(PoolError::InvalidAmount),
            amount > 0 ==> {
                let ledger = old(self).accounts@;
                let new_balance = balance_of(ledger, depositor) + amount;
                let new_tickets = tickets_of(ledger, depositor) + amount * old(self).period_days;
                &&& result == Ok::<TokenTransfer, PoolError>(
                    (TokenTransfer {
                        from: Party::Account(depositor),
                        to: Party::Pool,
                        amount,
                    }),
                )
                &&& balance_of(final(self).accounts@, depositor) == new_balance
                &&& tickets_of(final(self).accounts@, depositor) == new_tickets
                &&& forall|u: u64| u != depositor ==> balance_of(final(self).accounts@, u)
                    == balance_of(ledger, u) && tickets_of(final(self).accounts@, u)
                    == tickets_of(ledger, u)
                &&& (has_account(ledger, depositor) ==> final(self).accounts@ == ledger.update(
                    account_index(ledger, depositor),
                    (DepositorAccount {
                        owner: depositor,
                        balance: new_balance as i128,
                        tickets: new_tickets as i128,
                    }),
                ))
                &&& (!has_account(ledger, depositor) ==> final(self).accounts@ == ledger.push(
                    (DepositorAccount {
                        owner: depositor,
                        balance: amount,
                        tickets: new_tickets as i128,
                    }),
                ))
                &&& final(self).total_deposits == old(self).total_deposits + amount
                &&& final(self).total_tickets == old(self).total_tickets + amount * old(
                    self,
                ).period_days
                &&& same_config(*final(self), *old(self))
                &&& same_delegation(*final(self), *old(self))
                &&& final(self).prize_fund == old(self).prize_fund
                &&& final(self).draw_nonce == old(self).draw_nonce
            },
    {
        if amount <= 0 {
            return Err(PoolError::InvalidAmount);
        }
        proof {
            lemma_sum_nonnegative(self.accounts@);
            vstd::arithmetic::mul::lemma_mul_strictly_positive(
                amount as int,
                self.period_days as int,
            );
        }
        let ticket_delta = amount * (self.period_days as i128);
        let ghost ledger = self.accounts@;
        match find_index(&self.accounts, depositor) {
            Some(i) => {
                proof {
                    lemma_account_index(ledger, depositor);
                    lemma_row_le_sum(ledger, i as int);
                }
                let row = self.accounts[i];
                let updated = DepositorAccount {
                    owner: row.owner,
                    balance: row.balance + amount,
                    tickets: row.tickets + ticket_delta,
                };
                self.accounts[i] = updated;
                proof {
                    lemma_sum_update(ledger, i as int, updated);
                    lemma_account_index_of_match(self.accounts@, depositor, i as int);
                    assert forall|u: u64| u != depositor implies balance_of(
                        self.accounts@,
                        u,
                    ) == balance_of(ledger, u) && tickets_of(self.accounts@, u) == tickets_of(
                        ledger,
                        u,
                    ) by {
                        lemma_lookup_update_same_owner(ledger, i as int, updated, u);
                    }
                }
            },
            None => {
                proof {
                    lemma_account_index(ledger, depositor);
                }
                let appended = DepositorAccount {
                    owner: depositor,
                    balance: amount,
                    tickets: ticket_delta,
                };
                self.accounts.push(appended);
                proof {
                    lemma_sum_push(ledger, appended);
                    lemma_account_index_of_match(self.accounts@, depositor, ledger.len() as int);
                    assert forall|u: u64| u != depositor implies balance_of(
                        self.accounts@,
                        u,
                    ) == balance_of(ledger, u) && tickets_of(self.accounts@, u) == tickets_of(
                        ledger,
                        u,
                    ) by {
                        lemma_lookup_push_other(ledger, appended, u);
                    }
                }
            },
        }
        self.total_deposits = self.total_deposits + amount;
        self.total_tickets = self.total_tickets + ticket_delta;
        Ok(TokenTransfer { from: Party::Account(depositor), to: Party::Pool, amount })
    }

    /// Debit a withdrawal: `amount` of principal leaves, and the ticket
    /// burn is proportional and truncating, `tickets * amount / balance`.
    /// A depositor who withdraws in many small steps may therefore keep
    /// slightly more tickets than one who withdraws the same total at
    /// once; the rounding bias is accepted. Returns the transfer pushing
    /// `amount` back to the depositor, whom the embedder must have
    /// authenticated as the caller.
    pub fn withdraw(&mut self, depositor: u64, amount: i128) -> (result: Result<
        TokenTransfer,
        PoolError,
    >)
        requires
            old(self).wf(),
            0 < amount <= balance_of(old(self).accounts@, depositor) ==> tickets_of(
                old(self).accounts@,
                depositor,
            ) * amount <= i128::MAX,
        ensures
            final(self).wf(),
            result is Err ==> pool_unchanged(*final(self), *old(self)),
            amount <= 0 ==> result == Err::<TokenTransfer, PoolError>(PoolError::InvalidAmount),
            amount > 0 && balance_of(old(self).accounts@, depositor) < amount ==> result == Err::<
                TokenTransfer,
                PoolError,
            >(PoolError::InsufficientBalance),
            0 < amount <= balance_of(old(self).accounts@, depositor) ==> {
                let ledger = old(self).accounts@;
                let burned = tickets_of(ledger, depositor) * amount / balance_of(
                    ledger,
                    depositor,
                );
                &&& result == Ok::<TokenTransfer, PoolError>(
                    (TokenTransfer {
                        from: Party::Pool,
                        to: Party::Account(depositor),
                        amount,
                    }),
                )
                &&& balance_of(final(self).accounts@, depositor) == balance_of(ledger, depositor)
                    - amount
                &&& tickets_of(final(self).accounts@, depositor) == tickets_of(ledger, depositor)
                    - burned
                &&& forall|u: u64| u != depositor ==> balance_of(final(self).accounts@, u)
                    == balance_of(ledger, u) && tickets_of(final(self).accounts@, u)
                    == tickets_of(ledger, u)
                &&& final(self).accounts@ == ledger.update(
                    account_index(ledger, depositor),
                    (DepositorAccount {
                        owner: depositor,
                        balance: (balance_of(ledger, depositor) - amount) as i128,
                        tickets: (tickets_of(ledger, depositor) - burned) as i128,
                    }),
                )
                &&& final(self).total_deposits == old(self).total_deposits - amount
                &&& final(self).total_tickets == old(self).total_tickets - burned
                &&& same_config(*final(self), *old(self))
                &&& same_delegation(*final(self), *old(self))
                &&& final(self).prize_fund == old(self).prize_fund
                &&& final(self).draw_nonce == old(self).draw_nonce
            },
    {
        if amount <= 0 {
            return Err(PoolError::InvalidAmount);
        }
        let ghost ledger = self.accounts@;
        match find_index(&self.accounts, depositor) {
            None => {
                proof {
                    lemma_account_index(ledger, depositor);
                }
                Err(PoolError::InsufficientBalance)
            },
            Some(i) => {
                proof {
                    lemma_account_index(ledger, depositor);
                }
                let row = self.accounts[i];
                if row.balance < amount {
                    return Err(PoolError::InsufficientBalance);
                }
                proof {
                    vstd::arithmetic::mul::lemma_mul_nonnegative(
                        row.tickets as int,
                        amount as int,
                    );
                }
                let raw_weight = row.tickets * amount;
                let burn = raw_weight / row.balance;
                proof {
                    vstd::arithmetic::div_mod::lemma_div_pos_is_pos(
                        raw_weight as int,
                        row.balance as int,
                    );
                    vstd::arithmetic::mul::lemma_mul_inequality(
                        amount as int,
                        row.balance as int,
                        row.tickets as int,
                    );
                    vstd::arithmetic::mul::lemma_mul_is_commutative(
                        row.tickets as int,
                        amount as int,
                    );
                    vstd::arithmetic::mul::lemma_mul_is_commutative(
                        row.tickets as int,
                        row.balance as int,
                    );
                    vstd::arithmetic::div_mod::lemma_div_is_ordered(
                        row.tickets * amount,
                        row.tickets * row.balance,
                        row.balance as int,
                    );
                    vstd::arithmetic::div_mod::lemma_div_by_multiple(
                        row.tickets as int,
                        row.balance as int,
                    );
                    lemma_row_le_sum(ledger, i as int);
                }
                let updated = DepositorAccount {
                    owner: row.owner,
                    balance: row.balance - amount,
                    tickets: row.tickets - burn,
                };
                self.accounts[i] = updated;
                proof {
                    lemma_sum_update(ledger, i as int, updated);
                    lemma_account_index_of_match(self.accounts@, depositor, i as int);
                    assert forall|u: u64| u != depositor implies balance_of(
                        self.accounts@,
                        u,
                    ) == balance_of(ledger, u) && tickets_of(self.accounts@, u) == tickets_of(
                        ledger,
                        u,
                    ) by {
                        lemma_lookup_update_same_owner(ledger, i as int, updated, u);
                    }
                }
                self.total_deposits = self.total_deposits - amount;
                self.total_tickets = self.total_tickets - burn;
                Ok(TokenTransfer { from: Party::Pool, to: Party::Account(depositor), amount })
            },
        }
    }

    /// Grow the prize fund by `amount`, pulled from the admin. Only the
    /// admin may do this, and only with a positive amount.
    pub fn add_prize(&mut self, caller: u64, amount: i128) -> (result: Result<
        TokenTransfer,
        PoolError,
    >)
        requires
            old(self).wf(),
            old(self).initialized,
            caller == old(self).admin && amount > 0 ==> old(self).prize_fund + amount
                <= i128::MAX,
        ensures
            final(self).wf(),
            result is Err ==> pool_unchanged(*final(self), *old(self)),
            caller != old(self).admin ==> result == Err::<TokenTransfer, PoolError>(
                PoolError::Unauthorized,
            ),
            caller == old(self).admin && amount <= 0 ==> result == Err::<
                TokenTransfer,
                PoolError,
            >(PoolError::InvalidAmount),
            caller == old(self).admin && amount > 0 ==> {
                &&& result == Ok::<TokenTransfer, PoolError>(
                    (TokenTransfer {
                        from: Party::Account(caller),
                        to: Party::Pool,
                        amount,
                    }),
                )
                &&& final(self).prize_fund == old(self).prize_fund + amount
                &&& same_config(*final(self), *old(self))
                &&& same_ledger(*final(self), *old(self))
                &&& same_delegation(*final(self), *old(self))
                &&& final(self).draw_nonce == old(self).draw_nonce
            },
    {
        if caller != self.admin {
            return Err(PoolError::Unauthorized);
        }
        if amount <= 0 {
            return Err(PoolError::InvalidAmount);
        }
        self.prize_fund = self.prize_fund + amount;
        Ok(TokenTransfer { from: Party::Account(caller), to: Party::Pool, amount })
    }

    /// Run a draw: rebuild the active-participant list from the live
    /// per-depositor tickets (never trusting the cached total), reduce
    /// `random_value` modulo the recomputed active total, walk the list's
    /// cumulative ticket counts to the winner, empty the prize fund into
    /// the payout and advance the draw nonce by exactly one. The embedder
    /// supplies `random_value` from its randomness source -- derived
    /// entropy via [`crate::draw::derive_seed`], or a host random value --
    /// and must have authenticated `caller`.
    pub fn execute_draw(&mut self, caller: u64, random_value: u128) -> (result: Result<
        DrawOutcome,
        PoolError,
    >)
        requires
            old(self).wf(),
            old(self).initialized,
            old(self).draw_nonce < u64::MAX,
        ensures
            final(self).wf(),
            result is Err ==> pool_unchanged(*final(self), *old(self)),
            caller != old(self).admin ==> result == Err::<DrawOutcome, PoolError>(
                PoolError::Unauthorized,
            ),
            caller == old(self).admin && old(self).prize_fund <= 0 ==> result == Err::<
                DrawOutcome,
                PoolError,
            >(PoolError::NoPrizeToDistribute),
            caller == old(self).admin && old(self).prize_fund > 0 && old(self).total_tickets <= 0
                ==> result == Err::<DrawOutcome, PoolError>(PoolError::NoTicketsInPool),
            caller == old(self).admin && old(self).prize_fund > 0 && old(self).total_tickets > 0
                ==> {
                let winner = draw_winner(old(self).accounts@, random_value);
                &&& result == Ok::<DrawOutcome, PoolError>(
                    (DrawOutcome {
                        winner,
                        payout: TokenTransfer {
                            from: Party::Pool,
                            to: Party::Account(winner),
                            amount: old(self).prize_fund,
                        },
                    }),
                )
                &&& final(self).prize_fund == 0
                &&& final(self).draw_nonce == old(self).draw_nonce + 1
                &&& same_config(*final(self), *old(self))
                &&& same_ledger(*final(self), *old(self))
                &&& same_delegation(*final(self), *old(self))
            },
    {
        if caller != self.admin {
            return Err(PoolError::Unauthorized);
        }
        if self.prize_fund <= 0 {
            return Err(PoolError::NoPrizeToDistribute);
        }
        if self.total_tickets <= 0 {
            return Err(PoolError::NoTicketsInPool);
        }
        let ghost ledger = self.accounts@;
        let mut participants: Vec<DepositorAccount> = Vec::new();
        let mut active_total: i128 = 0;
        let mut i: usize = 0;
        while i < self.accounts.len()
            invariant
                i <= self.accounts@.len(),
                self.accounts@ == ledger,
                all_nonnegative(ledger),
                self.total_tickets == sum_tickets(ledger),
                participants@ == active_accounts(ledger.take(i as int)),
                active_total == sum_tickets(participants@),
                active_total <= sum_tickets(ledger.take(i as int)),
            decreases self.accounts@.len() - i,
        {
            let row = self.accounts[i];
            proof {
                lemma_active_take_succ(ledger, i as int);
                lemma_sum_take_succ(ledger, i as int);
                lemma_sum_take_bounds(ledger, i as int + 1);
                if row.tickets > 0 {
                    lemma_sum_push(participants@, row);
                }
            }
            if row.tickets > 0 {
                active_total = active_total + row.tickets;
                participants.push(row);
            }
            i += 1;
        }
        proof {
            lemma_active_take_all(ledger);
            lemma_sum_take_all(ledger);
            lemma_active_sum(ledger);
            crate::draw::lemma_active_nonnegative(ledger);
        }
        if active_total <= 0 {
            // Unreachable from a well-formed pool: the recomputed active
            // total equals the cached ticket total checked above.
            return Err(PoolError::NoActiveParticipants);
        }
        let index = crate::draw::winning_index(random_value, active_total);
        let winner = select_winner(&participants, index);
        let prize = self.prize_fund;
        self.prize_fund = 0;
        self.draw_nonce = self.draw_nonce + 1;
        Ok(
            DrawOutcome {
                winner,
                payout: TokenTransfer {
                    from: Party::Pool,
                    to: Party::Account(winner),
                    amount: prize,
                },
            },
        )
    }

    /// Point the pool at a delegate yield pool. Admin-only; may be called
    /// again to repoint the delegate, which deliberately leaves the
    /// supplied-principal figure alone -- reconciling principal already
    /// with the prior delegate is the admin's operational responsibility.
    pub fn set_blend_pool(&mut self, caller: u64, blend_pool: u64) -> (result: Result<
        (),
        PoolError,
    >)
        requires
            old(self).wf(),
            old(self).initialized,
        ensures
            final(self).wf(),
            result is Err ==> pool_unchanged(*final(self), *old(self)),
            caller != old(self).admin ==> result == Err::<(), PoolError>(PoolError::Unauthorized),
            caller == old(self).admin ==> {
                &&& result == Ok::<(), PoolError>(())
                &&& final(self).blend_pool == Some(blend_pool)
                &&& final(self).supplied_to_blend == old(self).supplied_to_blend
                &&& same_config(*final(self), *old(self))
                &&& same_ledger(*final(self), *old(self))
                &&& final(self).prize_fund == old(self).prize_fund
                &&& final(self).draw_nonce == old(self).draw_nonce
            },
    {
        if caller != self.admin {
            return Err(PoolError::Unauthorized);
        }
        self.blend_pool = Some(blend_pool);
        Ok(())
    }

    /// Record a supply of `amount` of principal to the delegate pool and
    /// return the collateral-supply request the embedder must submit,
    /// under an allowance that the delegate consumes atomically with the
    /// supply. Admin-only; needs a positive amount and a delegate set.
    pub fn supply_to_blend(&mut self, caller: u64, amount: i128) -> (result: Result<
        BlendRequest,
        PoolError,
    >)
        requires
            old(self).wf(),
            old(self).initialized,
            caller == old(self).admin && amount > 0 && old(self).blend_pool.is_some() ==> old(
                self,
            ).supplied_to_blend + amount <= i128::MAX,
        ensures
            final(self).wf(),
            result is Err ==> pool_unchanged(*final(self), *old(self)),
            caller != old(self).admin ==> result == Err::<BlendRequest, PoolError>(
                PoolError::Unauthorized,
            ),
            caller == old(self).admin && amount <= 0 ==> result == Err::<
                BlendRequest,
                PoolError,
            >(PoolError::InvalidAmount),
            caller == old(self).admin && amount > 0 && old(self).blend_pool.is_none() ==> result
                == Err::<BlendRequest, PoolError>(PoolError::DelegatePoolNotSet),
            caller == old(self).admin && amount > 0 && old(self).blend_pool.is_some() ==> {
                &&& result == Ok::<BlendRequest, PoolError>(
                    (BlendRequest {
                        request_type: BlendRequestKind::SupplyCollateral,
                        address: old(self).token,
                        amount,
                    }),
                )
                &&& final(self).supplied_to_blend == old(self).supplied_to_blend + amount
                &&& final(self).blend_pool == old(self).blend_pool
                &&& same_config(*final(self), *old(self))
                &&& same_ledger(*final(self), *old(self))
                &&& final(self).prize_fund == old(self).prize_fund
                &&& final(self).draw_nonce == old(self).draw_nonce
            },
    {
        if caller != self.admin {
            return Err(PoolError::Unauthorized);
        }
        if amount <= 0 {
            return Err(PoolError::InvalidAmount);
        }
        if self.blend_pool.is_none() {
            return Err(PoolError::DelegatePoolNotSet);
        }
        self.supplied_to_blend = self.supplied_to_blend + amount;
        Ok(
            BlendRequest {
                request_type: BlendRequestKind::SupplyCollateral,
                address: self.token,
                amount,
            },
        )
    }

    /// Validate a delegated withdrawal and build the collateral-withdraw
    /// request to submit. Mutates nothing: the embedder submits the
    /// request, measures the pool's token balance before and after, and
    /// settles the difference through [`LuckyStakePool::withdraw_from_blend`]
    /// or [`LuckyStakePool::harvest_yield`].
    pub fn blend_withdraw_request(&self, caller: u64, amount: i128, min_return: i128) -> (result:
        Result<BlendRequest, PoolError>)
        requires
            self.wf(),
            self.initialized,
        ensures
            caller != self.admin ==> result == Err::<BlendRequest, PoolError>(
                PoolError::Unauthorized,
            ),
            caller == self.admin && amount <= 0 ==> result == Err::<BlendRequest, PoolError>(
                PoolError::InvalidAmount,
            ),
            caller == self.admin && amount > 0 && !(0 <= min_return <= amount) ==> result
                == Err::<BlendRequest, PoolError>(PoolError::InvalidAmount),
            caller == self.admin && amount > 0 && 0 <= min_return <= amount
                && self.blend_pool.is_none() ==> result == Err::<BlendRequest, PoolError>(
                PoolError::DelegatePoolNotSet,
            ),
            caller == self.admin && amount > 0 && 0 <= min_return <= amount
                && self.blend_pool.is_some() ==> result == Ok::<BlendRequest, PoolError>(
                (BlendRequest {
                    request_type: BlendRequestKind::WithdrawCollateral,
                    address: self.token,
                    amount,
                }),
            ),
    {
        if caller != self.admin {
            return Err(PoolError::Unauthorized);
        }
        if amount <= 0 {
            return Err(PoolError::InvalidAmount);
        }
        if !(min_return >= 0 && min_return <= amount) {
            return Err(PoolError::InvalidAmount);
        }
        if self.blend_pool.is_none() {
            return Err(PoolError::DelegatePoolNotSet);
        }
        Ok(
            BlendRequest {
                request_type: BlendRequestKind::WithdrawCollateral,
                address: self.token,
                amount,
            },
        )
    }

    /// Settle a delegated withdrawal of principal. `received` is the
    /// measured balance delta around the submitted request; it must reach
    /// `min_return` or the whole operation aborts with `SlippageExceeded`
    /// and zero state mutation. On success the supplied principal drops by
    /// `received` -- what actually came back, not what was asked for.
    pub fn withdraw_from_blend(
        &mut self,
        caller: u64,
        amount: i128,
        min_return: i128,
        received: i128,
    ) -> (result: Result<(), PoolError>)
        requires
            old(self).wf(),
            old(self).initialized,
            caller == old(self).admin && amount > 0 && 0 <= min_return <= amount && old(
                self,
            ).blend_pool.is_some() && received >= min_return ==> i128::MIN <= old(
                self,
            ).supplied_to_blend - received,
        ensures
            final(self).wf(),
            result is Err ==> pool_unchanged(*final(self), *old(self)),
            caller != old(self).admin ==> result == Err::<(), PoolError>(PoolError::Unauthorized),
            caller == old(self).admin && amount <= 0 ==> result == Err::<(), PoolError>(
                PoolError::InvalidAmount,
            ),
            caller == old(self).admin && amount > 0 && !(0 <= min_return <= amount) ==> result
                == Err::<(), PoolError>(PoolError::InvalidAmount),
            caller == old(self).admin && amount > 0 && 0 <= min_return <= amount && old(
                self,
            ).blend_pool.is_none() ==> result == Err::<(), PoolError>(
                PoolError::DelegatePoolNotSet,
            ),
            caller == old(self).admin && amount > 0 && 0 <= min_return <= amount && old(
                self,
            ).blend_pool.is_some() && received < min_return ==> result == Err::<(), PoolError>(
                PoolError::SlippageExceeded,
            ),
            caller == old(self).admin && amount > 0 && 0 <= min_return <= amount && old(
                self,
            ).blend_pool.is_some() && received >= min_return ==> {
                &&& result == Ok::<(), PoolError>(())
                &&& final(self).supplied_to_blend == old(self).supplied_to_blend - received
                &&& final(self).blend_pool == old(self).blend_pool
                &&& same_config(*final(self), *old(self))
                &&& same_ledger(*final(self), *old(self))
                &&& final(self).prize_fund == old(self).prize_fund
                &&& final(self).draw_nonce == old(self).draw_nonce
            },
    {
        if caller != self.admin {
            return Err(PoolError::Unauthorized);
        }
        if amount <= 0 {
            return Err(PoolError::InvalidAmount);
        }
        if !(min_return >= 0 && min_return <= amount) {
            return Err(PoolError::InvalidAmount);
        }
        if self.blend_pool.is_none() {
            return Err(PoolError::DelegatePoolNotSet);
        }
        if received < min_return {
            return Err(PoolError::SlippageExceeded);
        }
        self.supplied_to_blend = self.supplied_to_blend - received;
        Ok(())
    }

    /// Settle a yield harvest. The same request and slippage guard as
    /// [`LuckyStakePool::withdraw_from_blend`], but the measured `received`
    /// grows the prize fund, and the supplied principal -- which tracks
    /// principal only -- stays put.
    pub fn harvest_yield(
        &mut self,
        caller: u64,
        amount: i128,
        min_return: i128,
        received: i128,
    ) -> (result: Result<(), PoolError>)
        requires
            old(self).wf(),
            old(self).initialized,
            caller == old(self).admin && amount > 0 && 0 <= min_return <= amount && old(
                self,
            ).blend_pool.is_some() && received >= min_return ==> old(self).prize_fund + received
                <= i128::MAX,
        ensures
            final(self).wf(),
            result is Err ==> pool_unchanged(*final(self), *old(self)),
            caller != old(self).admin ==> result == Err::<(), PoolError>(PoolError::Unauthorized),
            caller == old(self).admin && amount <= 0 ==> result == Err::<(), PoolError>(
                PoolError::InvalidAmount,
            ),
            caller == old(self).admin && amount > 0 && !(0 <= min_return <= amount) ==> result
                == Err::<(), PoolError>(PoolError::InvalidAmount),
            caller == old(self).admin && amount > 0 && 0 <= min_return <= amount && old(
                self,
            ).blend_pool.is_none() ==> result == Err::<(), PoolError>(
                PoolError::DelegatePoolNotSet,
            ),
            caller == old(self).admin && amount > 0 && 0 <= min_return <= amount && old(
                self,
            ).blend_pool.is_some() && received < min_return ==> result == Err::<(), PoolError>(
                PoolError::SlippageExceeded,
            ),
            caller == old(self).admin && amount > 0 && 0 <= min_return <= amount && old(
                self,
            ).blend_pool.is_some() && received >= min_return ==> {
                &&& result == Ok::<(), PoolError>(())
                &&& final(self).prize_fund == old(self).prize_fund + received
                &&& final(self).supplied_to_blend == old(self).supplied_to_blend
                &&& final(self).blend_pool == old(self).blend_pool
                &&& same_config(*final(self), *old(self))
                &&& same_ledger(*final(self), *old(self))
                &&& final(self).draw_nonce == old(self).draw_nonce
            },
    {
        if caller != self.admin {
            return Err(PoolError::Unauthorized);
        }
        if amount <= 0 {
            return Err(PoolError::InvalidAmount);
        }
        if !(min_return >= 0 && min_return <= amount) {
            return Err(PoolError::InvalidAmount);
        }
        if self.blend_pool.is_none() {
            return Err(PoolError::DelegatePoolNotSet);
        }
        if received < min_return {
            return Err(PoolError::SlippageExceeded);
        }
        self.prize_fund = self.prize_fund + received;
        Ok(())
    }

    /// The balance recorded for `user`; zero when it has never deposited.
    pub fn get_balance(&self, user: u64) -> (balance: i128)
        ensures
            balance == balance_of(self.accounts@, user),
    {
        match find_index(&self.accounts, user) {
            Some(i) => {
                proof {
                    lemma_account_index(self.accounts@, user);
                }
                self.accounts[i].balance
            },
            None => 0,
        }
    }

    /// The tickets recorded for `user`; zero when it has never deposited.
    pub fn get_tickets(&self, user: u64) -> (tickets: i128)
        ensures
            tickets == tickets_of(self.accounts@, user),
    {
        match find_index(&self.accounts, user) {
            Some(i) => {
                proof {
                    lemma_account_index(self.accounts@, user);
                }
                self.accounts[i].tickets
            },
            None => 0,
        }
    }

    /// The cached sum of all balances.
    pub fn get_total_deposits(&self) -> (total: i128)
        ensures
            total == self.total_deposits,
    {
        self.total_deposits
    }

    /// The cached sum of all tickets.
    pub fn get_total_tickets(&self) -> (total: i128)
        ensures
            total == self.total_tickets,
    {
        self.total_tickets
    }

    /// What the next draw pays out.
    pub fn get_prize_fund(&self) -> (prize: i128)
        ensures
            prize == self.prize_fund,
    {
        self.prize_fund
    }

    /// The draw-cycle length; zero before initialization.
    pub fn get_period_days(&self) -> (period: u32)
        ensures
            period == self.period_days,
    {
        self.period_days
    }

    /// The pool's admin. Meaningless before initialization, as in the
    /// original surface, which has no admin to return then.
    pub fn get_admin(&self) -> (admin: u64)
        requires
            self.initialized,
        ensures
            admin == self.admin,
    {
        self.admin
    }

    /// The custody token. Meaningless before initialization.
    pub fn get_token(&self) -> (token: u64)
        requires
            self.initialized,
        ensures
            token == self.token,
    {
        self.token
    }

    /// The delegate yield pool, if one has been set.
    pub fn get_blend_pool(&self) -> (pool: Option<u64>)
        ensures
            pool == self.blend_pool,
    {
        self.blend_pool
    }

    /// Principal supplied to the delegate pool, excluding accrued yield.
    pub fn get_supplied_to_blend(&self) -> (supplied: i128)
        ensures
            supplied == self.supplied_to_blend,
    {
        self.supplied_to_blend
    }

    /// How many draws have executed.
    pub fn get_draw_nonce(&self) -> (nonce: u64)
        ensures
            nonce == self.draw_nonce,
    {
        self.draw_nonce
    }
}

/// The cumulative walk of the weighted draw: the winner is the first
/// participant whose running ticket count strictly exceeds the winning
/// index.
fn select_winner(participants: &Vec<DepositorAccount>, index: i128) -> (winner: u64)
    requires
        all_nonnegative(participants@),
        0 <= index < sum_tickets(participants@),
        sum_tickets(participants@) <= i128::MAX,
    ensures
        winner == participants@[selected_index(participants@, index as int)].owner,
{
    let mut cumulative: i128 = 0;
    let mut i: usize = 0;
    while i < participants.len()
        invariant
            all_nonnegative(participants@),
            0 <= index < sum_tickets(participants@),
            sum_tickets(participants@) <= i128::MAX,
            i <= participants@.len(),
            cumulative == sum_tickets(participants@.take(i as int)),
            cumulative <= index,
        decreases participants@.len() - i,
    {
        let row = participants[i];
        proof {
            lemma_sum_take_succ(participants@, i as int);
            lemma_sum_take_bounds(participants@, i as int + 1);
        }
        if index < cumulative + row.tickets {
            proof {
                crate::draw::lemma_selected_index(participants@, index as int, i as int);
            }
            return row.owner;
        }
        cumulative = cumulative + row.tickets;
        i += 1;
    }
    proof {
        // The walk cannot fall off the end: the index is below the total.
        lemma_sum_take_all(participants@);
        assert(false);
    }
    0
}

/// The linear registry scan: the first row owned by `owner`, if any.
fn find_index(accounts: &Vec<DepositorAccount>, owner: u64) -> (found: Option<usize>)
    ensures
        match found {
            Some(i) => i < accounts@.len() && account_index(accounts@, owner) == i,
            None => account_index(accounts@, owner) == -1,
        },
{
    let mut i: usize = 0;
    while i < accounts.len()
        invariant
            i <= accounts@.len(),
            forall|j: int| 0 <= j < i ==> (#[trigger] accounts@[j]).owner != owner,
        decreases accounts@.len() - i,
    {
        if accounts[i].owner == owner {
            proof {
                lemma_account_index_of_match(accounts@, owner, i as int);
            }
            return Some(i);
        }
        i += 1;
    }
    proof {
        lemma_account_index(accounts@, owner);
    }
    None
}

} // verus!
