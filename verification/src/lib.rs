//! A time-boxed, incentive-weighted token-locking engine ("lockdrop").
//!
//! Users deposit liquidity-pool positions during a deposit window, choosing a
//! lock duration; longer locks earn a larger weight. During a withdrawal
//! window (a sub-interval of the deposit window) a single withdrawal per lock
//! entry is allowed, capped by a linearly decaying fraction of the entry's
//! principal. Once the window closes, an administrator migrates the aggregate
//! principal into a downstream pool, which freezes the weighted-share totals
//! and enables claims: each entry is then entitled to a pro-rata slice of a
//! fixed reward budget and of the minted pool shares, claimable once its
//! unlock timestamp has passed.
//!
//! The engine is a pure state machine: time is an input to every operation,
//! and all token transfers are carried out by the embedding, which calls in
//! here to decide amounts and to commit state.

pub mod coins;
pub mod config;
pub mod engine;
pub mod errors;
pub mod incentives;
pub mod ledger;
pub mod messages;
