//! A verified beacon-chain state container.
//!
//! The crate models the canonical consensus state of a proof-of-stake chain:
//! the fork-versioned state record, its epoch-indexed circular buffers
//! (block/state roots, RANDAO mixes, slashings), the rotating committee
//! caches with their swap-or-not shuffling, the deterministic
//! rejection-sampling used for proposer and sync-committee selection, and
//! the cache-rebasing machinery that lets a fresh state adopt caches from a
//! related ancestor.
use vstd::prelude::*;

mod beacon_state;
mod block_lookup;
mod chain_spec;
mod committee_cache;
mod error;
mod exit_cache;
mod hash256;
mod hashing;
mod inclusion_list;
mod laws;
mod merkle;
mod progressive_cache;
mod pubkey_cache;
mod relative_epoch;
mod shuffle;
mod slashings_cache;
pub mod ssz_tagged_beacon_state;
mod types;
mod validator;

pub use beacon_state::BeaconState;
pub use block_lookup::ResponseType;
pub use inclusion_list::{InclusionListAggregated, InclusionListAggregatedEntry, InclusionRequest};
pub use chain_spec::{ChainSpec, Domain, ForkName, FAR_FUTURE_EPOCH};
pub use committee_cache::{
    compute_committee_index_in_epoch, compute_committee_range_in_epoch, epoch_committee_count,
    get_active_validator_indices, CommitteeCache,
};
pub use exit_cache::ExitCache;
pub use progressive_cache::{EpochCache, ProgressiveBalances, ProgressiveBalancesCache};
pub use pubkey_cache::PubkeyCache;
pub use slashings_cache::SlashingsCache;
pub use error::{ArithError, DecodeError, Error, InconsistentFork, RelativeEpochError};
pub use hash256::{BeaconStateHash, Hash256};
pub use laws::{
    lemma_next_sync_committee_deterministic, lemma_no_active_validators,
    lemma_proposer_lookup_deterministic, lemma_pubkey_cache_lookup_complete,
    lemma_randao_mix_window, lemma_rebase_equivalence,
};
pub use hashing::{hash32_of, int_to_bytes_spec, u64_from_le_spec};
pub use merkle::{
    subtree_root, u64_leaf, CURRENT_SYNC_COMMITTEE_INDEX, FINALIZED_ROOT_INDEX,
    NEXT_SYNC_COMMITTEE_INDEX, NUM_FIELDS_POW2, PROOF_DEPTH,
};
pub use relative_epoch::RelativeEpoch;
pub use shuffle::{compute_shuffled_index, shuffled_index_spec, MAX_SHUFFLE_LIST_SIZE};
pub use types::{
    AttestationData, AttestationDuty, BeaconBlockHeader, BeaconCommittee, Checkpoint, Eth1Data,
    ExecutionPayloadHeader, Fork, HistoricalBatch, HistoricalSummary, PendingAttestation,
    SyncCommittee, SyncDuty,
};
pub use validator::Validator;

verus! {

/// Capacity of the rotating committee-cache array: Previous, Current, Next.
pub const CACHED_EPOCHS: usize = 3;

} // verus!
