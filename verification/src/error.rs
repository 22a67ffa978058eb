//! Error kinds surfaced by the governance engine.

use vstd::prelude::*;

verus! {

/// Every failure an operation can report. Validation failures are detected
/// before any mutation is applied, so an error always leaves every record
/// unchanged.
#[derive(Clone, Copy, Debug, PartialEq, Eq, Structural)]
pub enum VotingError {
    /// The record at the derived key already exists.
    AlreadyInitialized,
    /// The caller is not the authority stored in the config.
    InvalidAuthority,
    /// A proposal title must be at least 3 bytes long.
    TitleTooShort,
    /// A proposal must offer at least 2 options.
    NotEnoughOptions,
    /// A stake delta must be strictly positive.
    InvalidStakeAmount,
    /// The voter's staked balance does not exceed the minimum threshold.
    NoTokensStaked,
    /// Stake can only be withdrawn once the unstake cooldown has elapsed.
    UnstakingNotComplete,
    /// A vote by this voter on this proposal already exists.
    AlreadyVoted,
    /// The chosen option index is beyond the proposal's option list.
    OutOfRange,
    /// The addressed voter or proposal record does not exist.
    RecordNotFound,
    /// The token custody transfer was rejected; reported by the caller that
    /// performs transfers, never by the engine itself.
    CustodyTransferFailed,
}

} // verus!
