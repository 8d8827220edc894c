//! A custodial pooled-staking ledger with lottery draws.
//!
//! Deposits earn tickets in proportion to their size and the pool's draw
//! period; a weighted random draw periodically pays the accumulated prize
//! fund to one ticket holder. Idle principal can be delegated to an external
//! yield pool, with slippage-guarded withdrawal and yield harvesting.
//!
//! The crate is the core ledger only: every operation is a pure state
//! transition on [`pool::LuckyStakePool`] that validates its inputs, mutates
//! the ledger, and returns the external action (a token transfer, a delegate
//! request) that the embedding environment must perform. Host concerns --
//! persistent storage, authentication of callers, the token service, the
//! delegate pool, and the randomness source -- stay with the embedder, which
//! hands their results in as plain values.

pub mod account;
pub mod actions;
pub mod draw;
pub mod errors;
pub mod pool;
pub mod sums;
