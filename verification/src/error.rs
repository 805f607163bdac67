//! Typed, non-retryable failures of the state container.
//!
//! Every failure is explicit: an out-of-window access, a query against an
//! unbuilt cache, a fork-variant mismatch, or checked arithmetic that would
//! overflow. Bounds errors carry the computed index so a caller can diagnose
//! the miss without re-deriving the window logic.
use vstd::prelude::*;
use crate::relative_epoch::RelativeEpoch;

verus! {

/// A checked arithmetic operation failed.
#[derive(Debug, Clone, Copy, PartialEq, Eq, Structural)]
pub enum ArithError {
    Overflow,
    DivisionByZero,
}

/// A relative-epoch conversion failed: the other epoch lies outside the
/// Previous/Current/Next window of the base epoch.
#[derive(Debug, Clone, Copy, PartialEq, Eq, Structural)]
pub enum RelativeEpochError {
    EpochTooLow { base: u64, other: u64 },
    EpochTooHigh { base: u64, other: u64 },
}

/// The state's resident fork variant disagrees with the fork implied by its
/// slot under the supplied fork schedule.
#[derive(Debug, Clone, Copy, PartialEq, Eq, Structural)]
pub struct InconsistentFork {
    pub fork_at_slot: crate::chain_spec::ForkName,
    pub object_fork: crate::chain_spec::ForkName,
}

/// A failure to decode stored or transmitted state bytes.
#[derive(Debug, Clone, Copy, PartialEq, Eq, Structural)]
pub enum DecodeError {
    OutOfBoundsByte { i: usize },
    InvalidByteLength { len: usize, expected: usize },
    InvalidForkByte(u8),
}

/// The errors of the state container.
#[derive(Debug, Clone, PartialEq, Eq)]
pub enum Error {
    /// A state for a different hard-fork was required -- a severe logic error.
    IncorrectStateVariant,
    EpochOutOfBounds,
    SlotOutOfBounds,
    UnknownValidator(usize),
    UnableToShuffle,
    ShuffleIndexOutOfBounds(usize),
    IsAggregatorOutOfBounds,
    BlockRootsOutOfBounds(usize),
    StateRootsOutOfBounds(usize),
    SlashingsOutOfBounds(usize),
    BalancesOutOfBounds(usize),
    RandaoMixesOutOfBounds(usize),
    CommitteeCachesOutOfBounds(usize),
    InactivityScoresOutOfBounds(usize),
    InsufficientValidators,
    NoCommittee { slot: u64, index: u64 },
    PubkeyCacheInconsistent,
    PubkeyCacheIncomplete { cache_len: usize, registry_len: usize },
    TotalActiveBalanceCacheUninitialized,
    TotalActiveBalanceCacheInconsistent { initialized_epoch: u64, current_epoch: u64 },
    RelativeEpochError(RelativeEpochError),
    ExitCacheUninitialized,
    SlashingsCacheUninitialized { initialized_slot: Option<u64>, latest_block_slot: u64 },
    CommitteeCacheUninitialized(Option<RelativeEpoch>),
    SyncCommitteeCacheUninitialized,
    SyncCommitteeNotKnown { current_epoch: u64, epoch: u64 },
    EpochCacheUninitialized,
    InvalidDepositState { deposit_count: u64, deposit_index: u64 },
    /// An arithmetic operation occurred which would have overflowed or divided by 0.
    ArithError(ArithError),
    IndexNotSupported(usize),
}

} // verus!
