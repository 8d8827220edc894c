//! The external actions an operation asks of the embedder: a custody-token
//! transfer, or a request to the delegate yield pool. The ledger only
//! decides these actions; the embedder performs them and the host's
//! all-or-nothing semantics discard the new ledger state if one fails.

use vstd::prelude::*;

verus! {

/// One side of a custody-token transfer.
#[derive(Clone, Copy, Debug, PartialEq, Eq)]
pub enum Party {
    /// A depositor, admin or winner, by its identity.
    Account(u64),
    /// The pool's own escrow.
    Pool,
}

/// A custody-token transfer the embedder must perform for the operation
/// that returned it to take effect.
#[derive(Clone, Copy, Debug, PartialEq, Eq)]
pub struct TokenTransfer {
    /// Who the tokens leave.
    pub from: Party,
    /// Who the tokens reach.
    pub to: Party,
    /// How many tokens move; always strictly positive.
    pub amount: i128,
}

/// What a delegate-pool request asks for.
#[derive(Clone, Copy, Debug, PartialEq, Eq)]
pub enum BlendRequestKind {
    /// Deposit into the delegate pool.
    Deposit,
    /// Withdraw a plain deposit from the delegate pool.
    Withdraw,
    /// Supply collateral to the delegate pool.
    SupplyCollateral,
    /// Withdraw collateral from the delegate pool.
    WithdrawCollateral,
}

/// One entry of the batched request list the delegate pool accepts.
#[derive(Clone, Copy, Debug, PartialEq, Eq)]
pub struct BlendRequest {
    /// What the request asks for.
    pub request_type: BlendRequestKind,
    /// The asset the request concerns, as the embedder numbers identities.
    pub address: u64,
    /// The amount requested; always strictly positive.
    pub amount: i128,
}

/// The delegate pool's wire code for each request kind.
pub open spec fn request_code_of(kind: BlendRequestKind) -> u32 {
    match kind {
        BlendRequestKind::Deposit => 0,
        BlendRequestKind::Withdraw => 1,
        BlendRequestKind::SupplyCollateral => 2,
        BlendRequestKind::WithdrawCollateral => 3,
    }
}

impl BlendRequest {
    /// The wire code of this request's kind.
    pub fn request_code(&self) -> (code: u32)
        ensures
            code == request_code_of(self.request_type),
    {
        match self.request_type {
            BlendRequestKind::Deposit => 0,
            BlendRequestKind::Withdraw => 1,
            BlendRequestKind::SupplyCollateral => 2,
            BlendRequestKind::WithdrawCollateral => 3,
        }
    }
}

/// How many ledger sequence numbers an allowance granted to the delegate
/// pool remains live for.
pub const ALLOWANCE_HORIZON: u32 = 50_000;

/// The expiry sequence number for an allowance granted now, at `sequence`.
pub fn allowance_expiration(sequence: u32) -> (expiration: u32)
    requires
        sequence + ALLOWANCE_HORIZON <= u32::MAX,
    ensures
        expiration == sequence + ALLOWANCE_HORIZON,
{
    sequence + ALLOWANCE_HORIZON
}

} // verus!
