//! A stake-weighted governance engine.
//!
//! Participants stake tokens to earn voting power and vote on multi-option
//! proposals. A vote carries the voter's full staked balance as its weight,
//! scaled down linearly while part of that balance sits in an unstake
//! cooldown. The engine keeps the books balanced (the configured total
//! always equals the voters' staked sum), hands out strictly increasing
//! proposal identifiers, accepts at most one vote per voter and proposal,
//! and refuses to release stake before its cooldown has run out.
//!
//! Token custody, the persistent record store and caller authentication are
//! external collaborators: callers hand this library plain values (amounts,
//! identities, timestamps) and perform transfers and persistence themselves.

pub mod engine;
pub mod error;
pub mod laws;
pub mod state;

use vstd::prelude::*;

verus! {

/// A voter must hold strictly more than this many base units of staked
/// tokens for a vote to be accepted.
pub const MIN_STAKED_TOKENS: u32 = 5_000_000;

} // verus!
