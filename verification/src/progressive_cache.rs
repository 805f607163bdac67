//! The remaining per-epoch caches: target-attesting balances and base
//! rewards. Both are built by epoch processing outside this core; here
//! they are held, queried and invalidated.
use vstd::prelude::*;
use crate::error::Error;

verus! {

/// The balances that epoch processing accumulates progressively over an
/// epoch, valid for that epoch only.
#[derive(Debug, Clone, PartialEq, Eq)]
pub struct ProgressiveBalancesCache {
    pub inner: Option<ProgressiveBalances>,
}

/// The tracked balances of one epoch.
#[derive(Debug, Clone, Copy, PartialEq, Eq, Structural)]
pub struct ProgressiveBalances {
    pub current_epoch: u64,
    pub previous_epoch_target_attesting_balance: u64,
    pub current_epoch_target_attesting_balance: u64,
}

impl Default for ProgressiveBalancesCache {
    /// The unbuilt cache.
    fn default() -> (r: ProgressiveBalancesCache)
        ensures
            r.inner is None,
    {
        ProgressiveBalancesCache { inner: None }
    }
}

impl ProgressiveBalancesCache {
    /// Returns `true` iff the cache has been built.
    pub fn is_initialized(&self) -> (r: bool)
        ensures
            r == (self.inner is Some),
    {
        match self.inner {
            Some(_) => true,
            None => false,
        }
    }
}

/// Per-validator values that stay fixed over an epoch, here the base
/// rewards used by block processing.
#[derive(Debug, Clone, PartialEq, Eq)]
pub struct EpochCache {
    pub initialized: bool,
    pub base_rewards: Vec<u64>,
}

impl Default for EpochCache {
    /// The unbuilt cache.
    fn default() -> (r: EpochCache)
        ensures
            !r.initialized,
            r.base_rewards@.len() == 0,
    {
        EpochCache { initialized: false, base_rewards: Vec::new() }
    }
}

impl EpochCache {
    /// The base reward of one validator: an error when the cache is
    /// unbuilt or the index is outside it.
    pub fn get_base_reward(&self, validator_index: usize) -> (r: Result<u64, Error>)
        ensures
            !self.initialized ==> r == Err::<u64, Error>(Error::EpochCacheUninitialized),
            self.initialized && validator_index >= self.base_rewards@.len() ==> r == Err::<
                u64,
                Error,
            >(Error::UnknownValidator(validator_index)),
            self.initialized && validator_index < self.base_rewards@.len() ==> r == Ok::<
                u64,
                Error,
            >(self.base_rewards@[validator_index as int]),
    {
        if !self.initialized {
            Err(Error::EpochCacheUninitialized)
        } else if validator_index >= self.base_rewards.len() {
            Err(Error::UnknownValidator(validator_index))
        } else {
            Ok(*self.base_rewards.get(validator_index).unwrap())
        }
    }
}

} // verus!
