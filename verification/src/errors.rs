//! The error taxonomy of the pool: every operation that can fail returns one
//! of these, and the ledger is left untouched whenever it does.

use vstd::prelude::*;

verus! {

/// Why a pool operation was refused. Each failure aborts the whole operation
/// with no state change; callers resolve the cause and retry.
#[derive(Clone, Copy, Debug, PartialEq, Eq)]
pub enum PoolError {
    /// The pool was already initialized; configuration is set exactly once.
    AlreadyInitialized,
    /// The draw period is not one of the supported cycle lengths.
    InvalidPeriod,
    /// The caller is not the identity the operation demands.
    Unauthorized,
    /// An amount that must be strictly positive (or a minimum-return bound
    /// that must lie between zero and the requested amount) is not.
    InvalidAmount,
    /// A withdrawal asked for more than the depositor's balance.
    InsufficientBalance,
    /// A draw was requested while the prize fund is empty.
    NoPrizeToDistribute,
    /// A draw was requested while no depositor holds any tickets.
    NoTicketsInPool,
    /// The active-participant scan found no tickets. Unreachable from a
    /// well-formed ledger, where the cached ticket total equals the live sum.
    NoActiveParticipants,
    /// A delegation operation was requested before a delegate pool was set.
    DelegatePoolNotSet,
    /// The measured return of a delegate call fell short of the caller's
    /// minimum; the whole operation aborts with zero state mutation.
    SlippageExceeded,
}

} // verus!
