//! The versioned state container.
//!
//! One record holds the canonical fields of every fork variant: the fields
//! common to all forks are always present, and each group of fork-specific
//! fields is an optional component whose presence the well-formedness
//! invariant ties to the resident fork tag. Accessors for fork-gated
//! fields return a variant-mismatch error off-variant rather than a
//! default.
use vstd::prelude::*;
use crate::chain_spec::{ChainSpec, Domain, ForkName};
use crate::committee_cache::CommitteeCache;
use crate::error::{ArithError, Error, InconsistentFork};
use crate::exit_cache::ExitCache;
use crate::hash256::Hash256;
use crate::hashing::{hash32, hash32_of, int_to_bytes4, int_to_bytes8, int_to_bytes_spec};
use crate::progressive_cache::{EpochCache, ProgressiveBalancesCache};
use crate::pubkey_cache::PubkeyCache;
use crate::shuffle::{append_bytes, MAX_SHUFFLE_LIST_SIZE};
use crate::slashings_cache::SlashingsCache;
use crate::types::{
    BeaconBlockHeader, Checkpoint, Eth1Data, ExecutionPayloadHeader, Fork, HistoricalBatch,
    HistoricalSummary, PendingAttestation, SyncCommittee,
};
use crate::validator::Validator;

verus! {

/// Whether an epoch-indexed field may be addressed one epoch ahead of the
/// current epoch.
#[derive(Debug, Clone, Copy, PartialEq, Eq, Structural)]
pub(crate) enum AllowNextEpoch {
    True,
    False,
}

impl AllowNextEpoch {
    /// The highest epoch the window admits, seen from `current_epoch`.
    pub(crate) open spec fn upper_bound_spec(self, current_epoch: u64) -> int {
        match self {
            AllowNextEpoch::True => current_epoch + 1,
            AllowNextEpoch::False => current_epoch as int,
        }
    }
}

/// The state of the chain at some slot.
///
/// Fields up to `finalized_checkpoint` exist in every fork variant; the
/// optional groups after it exist from the fork that introduced them
/// onward, which [`BeaconState::wf`] ties to `fork_name`. The fields after
/// the checkpoints hold the derived caches; they carry no canonical data.
#[derive(Debug, Clone, PartialEq, Eq)]
pub struct BeaconState {
    /// The resident fork variant tag.
    pub fork_name: ForkName,
    // Versioning.
    pub genesis_time: u64,
    pub genesis_validators_root: Hash256,
    pub slot: u64,
    pub fork: Fork,
    // History.
    pub latest_block_header: BeaconBlockHeader,
    pub block_roots: Vec<Hash256>,
    pub state_roots: Vec<Hash256>,
    pub historical_roots: Vec<Hash256>,
    // Deposit-contract chain data.
    pub eth1_data: Eth1Data,
    pub eth1_data_votes: Vec<Eth1Data>,
    pub eth1_deposit_index: u64,
    // Registry.
    pub validators: Vec<Validator>,
    pub balances: Vec<u64>,
    // Randomness.
    pub randao_mixes: Vec<Hash256>,
    // Slashings.
    pub slashings: Vec<u64>,
    // Attestations, held by the genesis fork only.
    pub previous_epoch_attestations: Option<Vec<PendingAttestation>>,
    pub current_epoch_attestations: Option<Vec<PendingAttestation>>,
    // Participation, held from the second fork onward.
    pub previous_epoch_participation: Option<Vec<u8>>,
    pub current_epoch_participation: Option<Vec<u8>>,
    // Finality.
    pub justification_bits: Vec<bool>,
    pub previous_justified_checkpoint: Checkpoint,
    pub current_justified_checkpoint: Checkpoint,
    pub finalized_checkpoint: Checkpoint,
    // Inactivity, held from the second fork onward.
    pub inactivity_scores: Option<Vec<u64>>,
    // Light-client sync committees, held from the second fork onward.
    pub current_sync_committee: Option<SyncCommittee>,
    pub next_sync_committee: Option<SyncCommittee>,
    // Execution, held from the third fork onward.
    pub latest_execution_payload_header: Option<ExecutionPayloadHeader>,
    // Withdrawals and deep history, held from the fourth fork onward.
    pub next_withdrawal_index: Option<u64>,
    pub next_withdrawal_validator_index: Option<u64>,
    pub historical_summaries: Option<Vec<HistoricalSummary>>,
    // Derived caches, not part of the canonical state.
    pub total_active_balance: Option<(u64, u64)>,
    pub committee_caches: Vec<CommitteeCache>,
    pub progressive_balances_cache: ProgressiveBalancesCache,
    pub pubkey_cache: PubkeyCache,
    pub exit_cache: ExitCache,
    pub slashings_cache: SlashingsCache,
    pub epoch_cache: EpochCache,
}

impl BeaconState {
    /// The position of the resident fork in the schedule.
    pub open spec fn fork_ord(&self) -> int {
        self.fork_name.ord_spec()
    }

    /// Well-formedness against the chain parameters: the circular buffers
    /// hold exactly their protocol capacity of well-formed hashes, exactly
    /// three committee-cache slots exist and each is well-formed, and each
    /// fork-gated field group is present exactly from its fork onward.
    pub open spec fn wf(&self, spec: &ChainSpec) -> bool {
        &&& spec.wf()
        &&& self.slot < u64::MAX
        &&& self.block_roots@.len() == spec.slots_per_historical_root
        &&& self.state_roots@.len() == spec.slots_per_historical_root
        &&& self.randao_mixes@.len() == spec.epochs_per_historical_vector
        &&& self.slashings@.len() == spec.epochs_per_slashings_vector
        &&& forall|i: int| 0 <= i < self.block_roots@.len() ==> (#[trigger] self.block_roots@[i]).wf()
        &&& forall|i: int| 0 <= i < self.state_roots@.len() ==> (#[trigger] self.state_roots@[i]).wf()
        &&& forall|i: int| 0 <= i < self.randao_mixes@.len()
            ==> (#[trigger] self.randao_mixes@[i]).wf()
        &&& self.committee_caches@.len() == crate::CACHED_EPOCHS
        &&& forall|i: int| 0 <= i < self.committee_caches@.len()
            ==> (#[trigger] self.committee_caches@[i]).wf()
        &&& (self.previous_epoch_attestations is Some <==> self.fork_ord() == 0)
        &&& (self.current_epoch_attestations is Some <==> self.fork_ord() == 0)
        &&& (self.previous_epoch_participation is Some <==> self.fork_ord() >= 1)
        &&& (self.current_epoch_participation is Some <==> self.fork_ord() >= 1)
        &&& (self.inactivity_scores is Some <==> self.fork_ord() >= 1)
        &&& (self.current_sync_committee is Some <==> self.fork_ord() >= 1)
        &&& (self.next_sync_committee is Some <==> self.fork_ord() >= 1)
        &&& (self.latest_execution_payload_header is Some <==> self.fork_ord() >= 2)
        &&& (self.next_withdrawal_index is Some <==> self.fork_ord() >= 3)
        &&& (self.next_withdrawal_validator_index is Some <==> self.fork_ord() >= 3)
        &&& (self.historical_summaries is Some <==> self.fork_ord() >= 3)
    }

    /// The epoch that `slot` falls in.
    pub open spec fn epoch_of_slot_spec(slot: u64, spec: &ChainSpec) -> u64
        recommends
            spec.wf(),
    {
        (slot / spec.slots_per_epoch) as u64
    }

    /// The epoch of the state's slot.
    pub open spec fn current_epoch_spec(&self, spec: &ChainSpec) -> u64 {
        Self::epoch_of_slot_spec(self.slot, spec)
    }

    /// The epoch before the current one, saturating at the genesis epoch.
    pub open spec fn previous_epoch_spec(&self, spec: &ChainSpec) -> u64 {
        if self.current_epoch_spec(spec) == 0 {
            0u64
        } else {
            (self.current_epoch_spec(spec) - 1) as u64
        }
    }

    /// The epoch corresponding to `self.slot`.
    pub fn current_epoch(&self, spec: &ChainSpec) -> (r: u64)
        requires
            spec.wf(),
        ensures
            r == self.current_epoch_spec(spec),
    {
        self.slot / spec.slots_per_epoch
    }

    /// The epoch prior to the current one; at the genesis epoch, the
    /// genesis epoch itself.
    pub fn previous_epoch(&self, spec: &ChainSpec) -> (r: u64)
        requires
            spec.wf(),
        ensures
            r == self.previous_epoch_spec(spec),
    {
        let current = self.current_epoch(spec);
        if current == 0 {
            0
        } else {
            current - 1
        }
    }

    /// The epoch following the current one.
    pub fn next_epoch(&self, spec: &ChainSpec) -> (r: Result<u64, Error>)
        requires
            spec.wf(),
        ensures
            self.current_epoch_spec(spec) < u64::MAX ==> r == Ok::<u64, Error>(
                (self.current_epoch_spec(spec) + 1) as u64,
            ),
            self.current_epoch_spec(spec) == u64::MAX ==> r == Err::<u64, Error>(
                Error::ArithError(ArithError::Overflow),
            ),
    {
        let current = self.current_epoch(spec);
        if current == u64::MAX {
            Err(Error::ArithError(ArithError::Overflow))
        } else {
            Ok(current + 1)
        }
    }

    /// Returns the name of the fork the state's own variant tag names.
    pub fn fork_name_unchecked(&self) -> (r: ForkName)
        ensures
            r == self.fork_name,
    {
        self.fork_name
    }

    /// Returns the fork name when the resident variant agrees with the
    /// fork the schedule implies for the state's epoch, and the
    /// disagreement otherwise: a consistency fault of the caller's state
    /// handling.
    pub fn fork_name(&self, spec: &ChainSpec) -> (r: Result<ForkName, InconsistentFork>)
        requires
            spec.wf(),
        ensures
            ({
                let fork_at_slot = spec.fork_at_epoch_spec(self.current_epoch_spec(spec));
                if fork_at_slot == self.fork_name {
                    r == Ok::<ForkName, InconsistentFork>(self.fork_name)
                } else {
                    r == Err::<ForkName, InconsistentFork>(
                        InconsistentFork { fork_at_slot, object_fork: self.fork_name },
                    )
                }
            }),
    {
        let fork_at_slot = spec.fork_name_at_epoch(self.current_epoch(spec));
        let object_fork = self.fork_name_unchecked();
        if fork_at_slot == object_fork {
            Ok(object_fork)
        } else {
            Err(InconsistentFork { fork_at_slot, object_fork })
        }
    }

    /// Whether `slot` lies in the trailing window of a root buffer of
    /// capacity `len`: strictly before the state's slot and no more than
    /// `len` slots behind it.
    pub open spec fn root_window_ok(&self, slot: u64, len: nat) -> bool {
        slot < self.slot && self.slot <= slot + len
    }

    /// The index of `slot` in the block-root buffer: an error outside the
    /// buffer's window.
    fn get_latest_block_roots_index(&self, slot: u64) -> (r: Result<usize, Error>)
        requires
            1 <= self.block_roots@.len() <= u64::MAX,
        ensures
            ({
                let len = self.block_roots@.len() as int;
                if slot < self.slot && self.slot <= slot + len && slot + len <= u64::MAX {
                    r == Ok::<usize, Error>((slot as int % len) as usize)
                } else if slot < self.slot && slot + len > u64::MAX {
                    r == Err::<usize, Error>(Error::ArithError(ArithError::Overflow))
                } else {
                    r == Err::<usize, Error>(Error::SlotOutOfBounds)
                }
            }),
    {
        let len = self.block_roots.len();
        if slot < self.slot {
            match slot.checked_add(len as u64) {
                Some(upper) => {
                    if self.slot <= upper {
                        Ok((slot % (len as u64)) as usize)
                    } else {
                        Err(Error::SlotOutOfBounds)
                    }
                },
                None => Err(Error::ArithError(ArithError::Overflow)),
            }
        } else {
            Err(Error::SlotOutOfBounds)
        }
    }

    /// The index of `slot` in the state-root buffer: an error outside the
    /// buffer's window.
    fn get_latest_state_roots_index(&self, slot: u64) -> (r: Result<usize, Error>)
        requires
            1 <= self.state_roots@.len() <= u64::MAX,
        ensures
            ({
                let len = self.state_roots@.len() as int;
                if slot < self.slot && self.slot <= slot + len && slot + len <= u64::MAX {
                    r == Ok::<usize, Error>((slot as int % len) as usize)
                } else if slot < self.slot && slot + len > u64::MAX {
                    r == Err::<usize, Error>(Error::ArithError(ArithError::Overflow))
                } else {
                    r == Err::<usize, Error>(Error::SlotOutOfBounds)
                }
            }),
    {
        let len = self.state_roots.len();
        if slot < self.slot {
            match slot.checked_add(len as u64) {
                Some(upper) => {
                    if self.slot <= upper {
                        Ok((slot % (len as u64)) as usize)
                    } else {
                        Err(Error::SlotOutOfBounds)
                    }
                },
                None => Err(Error::ArithError(ArithError::Overflow)),
            }
        } else {
            Err(Error::SlotOutOfBounds)
        }
    }

    /// Return the block root at a recent `slot`, while `slot` is within
    /// the buffer's trailing window.
    pub fn get_block_root(&self, slot: u64) -> (r: Result<&Hash256, Error>)
        requires
            1 <= self.block_roots@.len() <= u64::MAX,
        ensures
            r is Ok <==> (self.root_window_ok(slot, self.block_roots@.len()) && slot
                + self.block_roots@.len() <= u64::MAX),
            r matches Ok(root) ==> root == self.block_roots@[slot as int % self.block_roots@.len() as int],
            !(r is Ok) && slot < self.slot && slot + self.block_roots@.len() > u64::MAX ==> r
                == Err::<&Hash256, Error>(Error::ArithError(ArithError::Overflow)),
            !(r is Ok) && !(slot < self.slot && slot + self.block_roots@.len() > u64::MAX) ==> r
                == Err::<&Hash256, Error>(Error::SlotOutOfBounds),
    {
        let i = match self.get_latest_block_roots_index(slot) {
            Ok(i) => i,
            Err(e) => {
                return Err(e);
            },
        };
        Ok(self.block_roots.get(i).unwrap())
    }

    /// Return the block root of the first slot of `epoch`.
    pub fn get_block_root_at_epoch(&self, epoch: u64, spec: &ChainSpec) -> (r: Result<
        &Hash256,
        Error,
    >)
        requires
            self.wf(spec),
            epoch * spec.slots_per_epoch <= u64::MAX,
        ensures
            ({
                let slot = (epoch * spec.slots_per_epoch) as u64;
                &&& (r is Ok <==> (self.root_window_ok(slot, self.block_roots@.len()) && slot
                    + self.block_roots@.len() <= u64::MAX))
                &&& (r matches Ok(root) ==> root == self.block_roots@[slot as int
                    % self.block_roots@.len() as int])
            }),
    {
        proof {
            vstd::arithmetic::mul::lemma_mul_is_commutative(
                epoch as int,
                spec.slots_per_epoch as int,
            );
        }
        let slot = epoch * spec.slots_per_epoch;
        self.get_block_root(slot)
    }

    /// Sets the block root for `slot`, while `slot` is within the
    /// buffer's trailing window; the rest of the state is unchanged.
    pub fn set_block_root(&mut self, slot: u64, block_root: Hash256) -> (r: Result<(), Error>)
        requires
            1 <= old(self).block_roots@.len() <= u64::MAX,
        ensures
            r is Ok <==> (old(self).root_window_ok(slot, old(self).block_roots@.len()) && slot
                + old(self).block_roots@.len() <= u64::MAX),
            r is Ok ==> final(self).block_roots@ == old(self).block_roots@.update(
                slot as int % old(self).block_roots@.len() as int,
                block_root,
            ),
            !(r is Ok) && slot < old(self).slot && slot + old(self).block_roots@.len()
                > u64::MAX ==> r == Err::<(), Error>(Error::ArithError(ArithError::Overflow)),
            !(r is Ok) && !(slot < old(self).slot && slot + old(self).block_roots@.len()
                > u64::MAX) ==> r == Err::<(), Error>(Error::SlotOutOfBounds),
            !(r is Ok) ==> *final(self) == *old(self),
            *final(self) == (BeaconState { block_roots: final(self).block_roots, ..*old(self) }),
    {
        let i = match self.get_latest_block_roots_index(slot) {
            Ok(i) => i,
            Err(e) => {
                return Err(e);
            },
        };
        self.block_roots.set(i, block_root);
        Ok(())
    }

    /// Gets the state root for `slot`, while `slot` is within the
    /// buffer's trailing window.
    pub fn get_state_root(&self, slot: u64) -> (r: Result<&Hash256, Error>)
        requires
            1 <= self.state_roots@.len() <= u64::MAX,
        ensures
            r is Ok <==> (self.root_window_ok(slot, self.state_roots@.len()) && slot
                + self.state_roots@.len() <= u64::MAX),
            r matches Ok(root) ==> root == self.state_roots@[slot as int % self.state_roots@.len() as int],
    {
        let i = match self.get_latest_state_roots_index(slot) {
            Ok(i) => i,
            Err(e) => {
                return Err(e);
            },
        };
        Ok(self.state_roots.get(i).unwrap())
    }

    /// Sets the state root for `slot`, while `slot` is within the
    /// buffer's trailing window; the rest of the state is unchanged.
    pub fn set_state_root(&mut self, slot: u64, state_root: Hash256) -> (r: Result<(), Error>)
        requires
            1 <= old(self).state_roots@.len() <= u64::MAX,
        ensures
            r is Ok <==> (old(self).root_window_ok(slot, old(self).state_roots@.len()) && slot
                + old(self).state_roots@.len() <= u64::MAX),
            r is Ok ==> final(self).state_roots@ == old(self).state_roots@.update(
                slot as int % old(self).state_roots@.len() as int,
                state_root,
            ),
            !(r is Ok) && slot < old(self).slot && slot + old(self).state_roots@.len()
                > u64::MAX ==> r == Err::<(), Error>(Error::ArithError(ArithError::Overflow)),
            !(r is Ok) && !(slot < old(self).slot && slot + old(self).state_roots@.len()
                > u64::MAX) ==> r == Err::<(), Error>(Error::SlotOutOfBounds),
            !(r is Ok) ==> *final(self) == *old(self),
            *final(self) == (BeaconState { state_roots: final(self).state_roots, ..*old(self) }),
    {
        let i = match self.get_latest_state_roots_index(slot) {
            Ok(i) => i,
            Err(e) => {
                return Err(e);
            },
        };
        self.state_roots.set(i, state_root);
        Ok(())
    }

    /// Gets the oldest state root the buffer still holds.
    pub fn get_oldest_state_root(&self) -> (r: Result<&Hash256, Error>)
        requires
            1 <= self.state_roots@.len() <= u64::MAX,
        ensures
            ({
                let len = self.state_roots@.len();
                let oldest = if self.slot >= len {
                    (self.slot - len) as u64
                } else {
                    0u64
                };
                r matches Ok(root) ==> self.slot > 0 && root == self.state_roots@[oldest as int
                    % len as int]
            }),
            r is Ok <==> self.slot > 0,
    {
        let len = self.state_roots.len() as u64;
        let oldest_slot = if self.slot >= len {
            self.slot - len
        } else {
            0
        };
        self.get_state_root(oldest_slot)
    }

    /// Gets the oldest block root the buffer still holds.
    pub fn get_oldest_block_root(&self) -> (r: Result<&Hash256, Error>)
        requires
            1 <= self.block_roots@.len() <= u64::MAX,
        ensures
            ({
                let len = self.block_roots@.len();
                let oldest = if self.slot >= len {
                    (self.slot - len) as u64
                } else {
                    0u64
                };
                r matches Ok(root) ==> self.slot > 0 && root == self.block_roots@[oldest as int
                    % len as int]
            }),
            r is Ok <==> self.slot > 0,
    {
        let len = self.block_roots.len() as u64;
        let oldest_slot = if self.slot >= len {
            self.slot - len
        } else {
            0
        };
        self.get_block_root(oldest_slot)
    }

    /// The past block roots in descending slot order: one entry per slot
    /// from the slot before the state's own down to the genesis slot,
    /// while the buffer's window lasts.
    pub fn rev_iter_block_roots(&self, spec: &ChainSpec) -> (r: Vec<(u64, Hash256)>)
        requires
            self.wf(spec),
        ensures
            forall|k: int| 0 <= k < r@.len() ==> {
                let slot = self.slot - 1 - k;
                &&& (#[trigger] r@[k]).0 == slot
                &&& r@[k].1@ == self.block_roots@[slot % self.block_roots@.len() as int]@
            },
            r@.len() == if self.slot > spec.genesis_slot {
                let span = (self.slot - spec.genesis_slot) as nat;
                if span <= self.block_roots@.len() {
                    span
                } else {
                    self.block_roots@.len()
                }
            } else {
                0nat
            },
    {
        let mut out: Vec<(u64, Hash256)> = Vec::new();
        let mut slot = self.slot;
        let len = self.block_roots.len() as u64;
        while slot > spec.genesis_slot && self.slot <= slot.saturating_add(len - 1)
            invariant
                self.wf(spec),
                1 <= len <= u64::MAX,
                len == self.block_roots@.len(),
                slot <= self.slot,
                out@.len() == self.slot - slot,
                out@.len() <= len,
                spec.genesis_slot <= self.slot ==> spec.genesis_slot <= slot,
                spec.genesis_slot > self.slot ==> slot == self.slot,
                forall|k: int| 0 <= k < out@.len() ==> {
                    let s = self.slot - 1 - k;
                    &&& (#[trigger] out@[k]).0 == s
                    &&& out@[k].1@ == self.block_roots@[s % self.block_roots@.len() as int]@
                },
            decreases slot,
        {
            let prev = slot - 1;
            let i = (prev % len) as usize;
            out.push((prev, self.block_roots.get(i).unwrap().copied()));
            slot = prev;
        }
        out
    }

    /// The number of deposits the state has yet to process: an error when
    /// the deposit index has run ahead of the deposit count.
    pub fn get_outstanding_deposit_len(&self) -> (r: Result<u64, Error>)
        ensures
            self.eth1_deposit_index <= self.eth1_data.deposit_count ==> r == Ok::<u64, Error>(
                (self.eth1_data.deposit_count - self.eth1_deposit_index) as u64,
            ),
            self.eth1_deposit_index > self.eth1_data.deposit_count ==> r == Err::<u64, Error>(
                Error::InvalidDepositState {
                    deposit_count: self.eth1_data.deposit_count,
                    deposit_index: self.eth1_deposit_index,
                },
            ),
    {
        if self.eth1_deposit_index <= self.eth1_data.deposit_count {
            Ok(self.eth1_data.deposit_count - self.eth1_deposit_index)
        } else {
            Err(Error::InvalidDepositState {
                deposit_count: self.eth1_data.deposit_count,
                deposit_index: self.eth1_deposit_index,
            })
        }
    }
}

impl BeaconState {
    /// Whether `epoch` lies in the window of an epoch-indexed buffer of
    /// capacity `len`, seen from `current`: no more than `len - 1` epochs
    /// behind, and not past the window's upper bound.
    pub open spec fn epoch_window_ok(current: u64, epoch: u64, len: nat, upper: int) -> bool {
        current < epoch + len && epoch <= upper
    }

    /// The index of `epoch` in the RANDAO-mix buffer: an error outside
    /// the buffer's window.
    fn get_randao_mix_index(
        &self,
        epoch: u64,
        allow_next_epoch: AllowNextEpoch,
        spec: &ChainSpec,
    ) -> (r: Result<usize, Error>)
        requires
            self.wf(spec),
        ensures
            ({
                let current = self.current_epoch_spec(spec);
                let len = spec.epochs_per_historical_vector as int;
                if epoch + len > u64::MAX {
                    r == Err::<usize, Error>(Error::ArithError(ArithError::Overflow))
                } else if Self::epoch_window_ok(
                    current,
                    epoch,
                    len as nat,
                    allow_next_epoch.upper_bound_spec(current),
                ) {
                    r == Ok::<usize, Error>((epoch as int % len) as usize)
                } else {
                    r == Err::<usize, Error>(Error::EpochOutOfBounds)
                }
            }),
    {
        let current_epoch = self.current_epoch(spec);
        let len = spec.epochs_per_historical_vector;
        let upper = match allow_next_epoch {
            AllowNextEpoch::True => current_epoch + 1,
            AllowNextEpoch::False => current_epoch,
        };
        match epoch.checked_add(len) {
            Some(bound) => {
                if current_epoch < bound && epoch <= upper {
                    Ok((epoch % len) as usize)
                } else {
                    Err(Error::EpochOutOfBounds)
                }
            },
            None => Err(Error::ArithError(ArithError::Overflow)),
        }
    }

    /// The lowest epoch the RANDAO-mix window admits for reading.
    pub fn min_randao_epoch(&self, spec: &ChainSpec) -> (r: u64)
        requires
            self.wf(spec),
        ensures
            ({
                let current = self.current_epoch_spec(spec);
                let len = spec.epochs_per_historical_vector;
                if current + 1 >= len {
                    r == current + 1 - len
                } else {
                    r == 0
                }
            }),
    {
        let current = self.current_epoch(spec);
        let len = spec.epochs_per_historical_vector;
        if current + 1 >= len {
            current + 1 - len
        } else {
            0
        }
    }

    /// Return the RANDAO mix at a recent `epoch`: the window reaches from
    /// the current epoch back one buffer's worth of epochs.
    pub fn get_randao_mix(&self, epoch: u64, spec: &ChainSpec) -> (r: Result<&Hash256, Error>)
        requires
            self.wf(spec),
        ensures
            ({
                let current = self.current_epoch_spec(spec);
                let len = spec.epochs_per_historical_vector as int;
                &&& (r is Ok <==> (epoch + len <= u64::MAX && current < epoch + len && epoch
                    <= current))
                &&& (r matches Ok(mix) ==> mix == self.randao_mixes@[epoch as int % len])
                &&& (epoch + len > u64::MAX ==> r == Err::<&Hash256, Error>(
                    Error::ArithError(ArithError::Overflow),
                ))
                &&& (epoch + len <= u64::MAX && !(current < epoch + len && epoch <= current) ==> r
                    == Err::<&Hash256, Error>(Error::EpochOutOfBounds))
            }),
    {
        let i = match self.get_randao_mix_index(epoch, AllowNextEpoch::False, spec) {
            Ok(i) => i,
            Err(e) => {
                return Err(e);
            },
        };
        Ok(self.randao_mixes.get(i).unwrap())
    }

    /// Set the RANDAO mix at `epoch`: the read window plus one epoch
    /// ahead, for forward writes at epoch processing.
    pub fn set_randao_mix(&mut self, epoch: u64, mix: Hash256, spec: &ChainSpec) -> (r: Result<
        (),
        Error,
    >)
        requires
            old(self).wf(spec),
            mix.wf(),
        ensures
            ({
                let current = old(self).current_epoch_spec(spec);
                let len = spec.epochs_per_historical_vector as int;
                r is Ok <==> (epoch + len <= u64::MAX && current < epoch + len && epoch <= current
                    + 1)
            }),
            r is Ok ==> final(self).randao_mixes@ == old(self).randao_mixes@.update(
                epoch as int % spec.epochs_per_historical_vector as int,
                mix,
            ),
            epoch + spec.epochs_per_historical_vector > u64::MAX ==> r == Err::<(), Error>(
                Error::ArithError(ArithError::Overflow),
            ),
            !(r is Ok) && epoch + spec.epochs_per_historical_vector <= u64::MAX ==> r == Err::<
                (),
                Error,
            >(Error::EpochOutOfBounds),
            !(r is Ok) ==> *final(self) == *old(self),
            *final(self) == (BeaconState { randao_mixes: final(self).randao_mixes, ..*old(self) }),
            final(self).wf(spec),
    {
        let i = match self.get_randao_mix_index(epoch, AllowNextEpoch::True, spec) {
            Ok(i) => i,
            Err(e) => {
                return Err(e);
            },
        };
        self.randao_mixes.set(i, mix);
        Ok(())
    }

    /// XOR-accumulates the digest of `signature` into the mix at `epoch`:
    /// the mix keeps the entropy contributed over the buffer's lifetime
    /// rather than being overwritten.
    pub fn update_randao_mix(&mut self, epoch: u64, signature: &Vec<u8>, spec: &ChainSpec) -> (r:
        Result<(), Error>)
        requires
            old(self).wf(spec),
        ensures
            ({
                let current = old(self).current_epoch_spec(spec);
                let len = spec.epochs_per_historical_vector as int;
                r is Ok <==> (epoch + len <= u64::MAX && current < epoch + len && epoch <= current)
            }),
            r is Ok ==> ({
                let len = spec.epochs_per_historical_vector as int;
                let i = epoch as int % len;
                final(self).randao_mixes@.len() == old(self).randao_mixes@.len()
                    && final(self).randao_mixes@[i]@ == Hash256::xor_spec(
                    old(self).randao_mixes@[i]@,
                    hash32_of(signature@),
                ) && forall|j: int| 0 <= j < old(self).randao_mixes@.len() && j != i
                    ==> final(self).randao_mixes@[j] == old(self).randao_mixes@[j]
            }),
            epoch + spec.epochs_per_historical_vector > u64::MAX ==> r == Err::<(), Error>(
                Error::ArithError(ArithError::Overflow),
            ),
            !(r is Ok) && epoch + spec.epochs_per_historical_vector <= u64::MAX ==> r == Err::<
                (),
                Error,
            >(Error::EpochOutOfBounds),
            !(r is Ok) ==> *final(self) == *old(self),
            *final(self) == (BeaconState { randao_mixes: final(self).randao_mixes, ..*old(self) }),
            final(self).wf(spec),
    {
        let i = (epoch % spec.epochs_per_historical_vector) as usize;
        let signature_hash = crate::hashing::hash32_root(signature);
        let current_mix = match self.get_randao_mix(epoch, spec) {
            Ok(mix) => mix,
            Err(e) => {
                return Err(e);
            },
        };
        let new_mix = current_mix.xor(&signature_hash);
        self.randao_mixes.set(i, new_mix);
        Ok(())
    }

    /// Fills the whole RANDAO-mix buffer with one root, as genesis
    /// initialisation does.
    pub fn fill_randao_mixes_with(&mut self, index_root: &Hash256, spec: &ChainSpec) -> (r: Result<
        (),
        Error,
    >)
        requires
            old(self).wf(spec),
            index_root.wf(),
        ensures
            r is Ok,
            final(self).randao_mixes@.len() == old(self).randao_mixes@.len(),
            forall|j: int| 0 <= j < final(self).randao_mixes@.len()
                ==> (#[trigger] final(self).randao_mixes@[j])@ == index_root@,
            *final(self) == (BeaconState { randao_mixes: final(self).randao_mixes, ..*old(self) }),
            final(self).wf(spec),
    {
        let len = self.randao_mixes.len();
        let mut i: usize = 0;
        while i < len
            invariant
                len == self.randao_mixes@.len(),
                i <= len,
                index_root.wf(),
                forall|j: int| 0 <= j < i ==> (#[trigger] self.randao_mixes@[j])@ == index_root@,
                forall|j: int| 0 <= j < len ==> (#[trigger] self.randao_mixes@[j]).wf(),
                *self == (BeaconState { randao_mixes: self.randao_mixes, ..*old(self) }),
            decreases len - i,
        {
            self.randao_mixes.set(i, index_root.copied());
            i = i + 1;
        }
        Ok(())
    }

    /// The index of `epoch` in the slashings buffer: an error outside the
    /// buffer's window.
    fn get_slashings_index(
        &self,
        epoch: u64,
        allow_next_epoch: AllowNextEpoch,
        spec: &ChainSpec,
    ) -> (r: Result<usize, Error>)
        requires
            self.wf(spec),
        ensures
            ({
                let current = self.current_epoch_spec(spec);
                let len = spec.epochs_per_slashings_vector as int;
                if epoch + len > u64::MAX {
                    r == Err::<usize, Error>(Error::ArithError(ArithError::Overflow))
                } else if Self::epoch_window_ok(
                    current,
                    epoch,
                    len as nat,
                    allow_next_epoch.upper_bound_spec(current),
                ) {
                    r == Ok::<usize, Error>((epoch as int % len) as usize)
                } else {
                    r == Err::<usize, Error>(Error::EpochOutOfBounds)
                }
            }),
    {
        let current_epoch = self.current_epoch(spec);
        let len = spec.epochs_per_slashings_vector;
        let upper = match allow_next_epoch {
            AllowNextEpoch::True => current_epoch + 1,
            AllowNextEpoch::False => current_epoch,
        };
        match epoch.checked_add(len) {
            Some(bound) => {
                if current_epoch < bound && epoch <= upper {
                    Ok((epoch % len) as usize)
                } else {
                    Err(Error::EpochOutOfBounds)
                }
            },
            None => Err(Error::ArithError(ArithError::Overflow)),
        }
    }

    /// Get a reference to the entire slashings vector.
    pub fn get_all_slashings(&self) -> (r: &Vec<u64>)
        ensures
            r@ == self.slashings@,
    {
        &self.slashings
    }

    /// Get the total slashed balance recorded for `epoch`, while `epoch`
    /// is within the buffer's window.
    pub fn get_slashings(&self, epoch: u64, spec: &ChainSpec) -> (r: Result<u64, Error>)
        requires
            self.wf(spec),
        ensures
            ({
                let current = self.current_epoch_spec(spec);
                let len = spec.epochs_per_slashings_vector as int;
                &&& (r is Ok <==> (epoch + len <= u64::MAX && current < epoch + len && epoch
                    <= current))
                &&& (r matches Ok(v) ==> v == self.slashings@[epoch as int % len])
                &&& (epoch + len > u64::MAX ==> r == Err::<u64, Error>(
                    Error::ArithError(ArithError::Overflow),
                ))
                &&& (!(r is Ok) && epoch + len <= u64::MAX ==> r == Err::<u64, Error>(
                    Error::EpochOutOfBounds,
                ))
            }),
    {
        let i = match self.get_slashings_index(epoch, AllowNextEpoch::False, spec) {
            Ok(i) => i,
            Err(e) => {
                return Err(e);
            },
        };
        Ok(*self.slashings.get(i).unwrap())
    }

    /// Set the total slashed balance for `epoch`: the read window plus
    /// one epoch ahead, for the forward write at epoch processing.
    pub fn set_slashings(&mut self, epoch: u64, value: u64, spec: &ChainSpec) -> (r: Result<
        (),
        Error,
    >)
        requires
            old(self).wf(spec),
        ensures
            ({
                let current = old(self).current_epoch_spec(spec);
                let len = spec.epochs_per_slashings_vector as int;
                r is Ok <==> (epoch + len <= u64::MAX && current < epoch + len && epoch <= current
                    + 1)
            }),
            epoch + spec.epochs_per_slashings_vector > u64::MAX ==> r == Err::<(), Error>(
                Error::ArithError(ArithError::Overflow),
            ),
            !(r is Ok) && epoch + spec.epochs_per_slashings_vector <= u64::MAX ==> r == Err::<
                (),
                Error,
            >(Error::EpochOutOfBounds),
            r is Ok ==> final(self).slashings@ == old(self).slashings@.update(
                epoch as int % spec.epochs_per_slashings_vector as int,
                value,
            ),
            !(r is Ok) ==> *final(self) == *old(self),
            *final(self) == (BeaconState { slashings: final(self).slashings, ..*old(self) }),
    {
        let i = match self.get_slashings_index(epoch, AllowNextEpoch::True, spec) {
            Ok(i) => i,
            Err(e) => {
                return Err(e);
            },
        };
        self.slashings.set(i, value);
        Ok(())
    }

    /// The buffer position the seed of `epoch` reads its mix from:
    /// deliberately frozen several epochs before `epoch`, so late entropy
    /// cannot steer the shuffle.
    pub open spec fn seed_mix_index_spec(&self, epoch: u64, spec: &ChainSpec) -> int {
        (epoch + spec.epochs_per_historical_vector - spec.min_seed_lookahead - 1) % (
        spec.epochs_per_historical_vector as int)
    }

    /// The preimage whose digest is the seed of `epoch` under `domain`:
    /// the four domain bytes, the eight epoch bytes, then the frozen mix.
    pub open spec fn seed_input_spec(&self, epoch: u64, domain: Domain, spec: &ChainSpec) -> Seq<
        u8,
    > {
        int_to_bytes_spec(spec.domain_constant_spec(domain) as u64, 4) + int_to_bytes_spec(
            epoch,
            8,
        ) + self.randao_mixes@[self.seed_mix_index_spec(epoch, spec)]@
    }

    /// Whether the seed-index arithmetic of `epoch` stays within 64 bits.
    pub open spec fn seed_arith_ok(epoch: u64, spec: &ChainSpec) -> bool {
        &&& epoch + spec.epochs_per_historical_vector <= u64::MAX
        &&& epoch + spec.epochs_per_historical_vector >= spec.min_seed_lookahead + 1
    }

    /// Generate the seed for `epoch` under `domain`: the digest of the
    /// domain tag, the epoch, and a RANDAO mix frozen one lookahead before
    /// the epoch began.
    pub fn get_seed(&self, epoch: u64, domain_type: Domain, spec: &ChainSpec) -> (r: Result<
        Hash256,
        Error,
    >)
        requires
            self.wf(spec),
        ensures
            r is Ok <==> Self::seed_arith_ok(epoch, spec),
            r matches Ok(h) ==> h@ == hash32_of(self.seed_input_spec(epoch, domain_type, spec))
                && h.wf(),
            !Self::seed_arith_ok(epoch, spec) ==> r == Err::<Hash256, Error>(
                Error::ArithError(ArithError::Overflow),
            ),
    {
        let len = spec.epochs_per_historical_vector;
        let sum = match epoch.checked_add(len) {
            Some(s) => s,
            None => {
                return Err(Error::ArithError(ArithError::Overflow));
            },
        };
        let after_lookahead = match sum.checked_sub(spec.min_seed_lookahead) {
            Some(v) => v,
            None => {
                return Err(Error::ArithError(ArithError::Overflow));
            },
        };
        let i = match after_lookahead.checked_sub(1) {
            Some(v) => v,
            None => {
                return Err(Error::ArithError(ArithError::Overflow));
            },
        };
        let i_mod = (i % len) as usize;
        let mix = self.randao_mixes.get(i_mod).unwrap();

        let mut preimage = int_to_bytes4(spec.get_domain_constant(domain_type));
        let epoch_bytes = int_to_bytes8(epoch);
        append_bytes(&mut preimage, &epoch_bytes);
        append_bytes(&mut preimage, &mix.bytes);
        proof {
            assert(preimage@ =~= self.seed_input_spec(epoch, domain_type, spec));
        }
        Ok(crate::hashing::hash32_root(&preimage))
    }
}


impl BeaconState {
    /// Safe indexer for the validator registry.
    pub fn get_validator(&self, validator_index: usize) -> (r: Result<&Validator, Error>)
        ensures
            validator_index < self.validators@.len() ==> r == Ok::<&Validator, Error>(
                &self.validators@[validator_index as int],
            ),
            validator_index >= self.validators@.len() ==> r == Err::<&Validator, Error>(
                Error::UnknownValidator(validator_index),
            ),
    {
        if validator_index < self.validators.len() {
            Ok(self.validators.get(validator_index).unwrap())
        } else {
            Err(Error::UnknownValidator(validator_index))
        }
    }

    /// Return the effective balance of the validator at `validator_index`.
    pub fn get_effective_balance(&self, validator_index: usize) -> (r: Result<u64, Error>)
        ensures
            validator_index < self.validators@.len() ==> r == Ok::<u64, Error>(
                self.validators@[validator_index as int].effective_balance,
            ),
            validator_index >= self.validators@.len() ==> r == Err::<u64, Error>(
                Error::UnknownValidator(validator_index),
            ),
    {
        match self.get_validator(validator_index) {
            Ok(v) => Ok(v.effective_balance()),
            Err(e) => Err(e),
        }
    }

    /// Get the balance of one validator.
    pub fn get_balance(&self, validator_index: usize) -> (r: Result<u64, Error>)
        ensures
            validator_index < self.balances@.len() ==> r == Ok::<u64, Error>(
                self.balances@[validator_index as int],
            ),
            validator_index >= self.balances@.len() ==> r == Err::<u64, Error>(
                Error::BalancesOutOfBounds(validator_index),
            ),
    {
        if validator_index < self.balances.len() {
            Ok(*self.balances.get(validator_index).unwrap())
        } else {
            Err(Error::BalancesOutOfBounds(validator_index))
        }
    }

    /// Set the balance of one validator; the rest of the state is
    /// unchanged.
    pub fn set_balance(&mut self, validator_index: usize, balance: u64) -> (r: Result<(), Error>)
        ensures
            r is Ok <==> validator_index < old(self).balances@.len(),
            r is Ok ==> final(self).balances@ == old(self).balances@.update(
                validator_index as int,
                balance,
            ),
            !(r is Ok) ==> *final(self) == *old(self) && r == Err::<(), Error>(
                Error::BalancesOutOfBounds(validator_index),
            ),
            *final(self) == (BeaconState { balances: final(self).balances, ..*old(self) }),
    {
        if validator_index < self.balances.len() {
            self.balances.set(validator_index, balance);
            Ok(())
        } else {
            Err(Error::BalancesOutOfBounds(validator_index))
        }
    }

    /// Get the inactivity score of one validator; an error on the
    /// genesis fork, which holds no scores.
    pub fn get_inactivity_score(&self, validator_index: usize) -> (r: Result<u64, Error>)
        ensures
            self.inactivity_scores matches Some(scores) ==> {
                &&& validator_index < scores@.len() ==> r == Ok::<u64, Error>(
                    scores@[validator_index as int],
                )
                &&& validator_index >= scores@.len() ==> r == Err::<u64, Error>(
                    Error::InactivityScoresOutOfBounds(validator_index),
                )
            },
            self.inactivity_scores is None ==> r == Err::<u64, Error>(
                Error::IncorrectStateVariant,
            ),
    {
        match &self.inactivity_scores {
            Some(scores) => {
                if validator_index < scores.len() {
                    Ok(*scores.get(validator_index).unwrap())
                } else {
                    Err(Error::InactivityScoresOutOfBounds(validator_index))
                }
            },
            None => Err(Error::IncorrectStateVariant),
        }
    }

    /// Set the inactivity score of one validator; the rest of the state
    /// is unchanged.
    pub fn set_inactivity_score(&mut self, validator_index: usize, score: u64) -> (r: Result<
        (),
        Error,
    >)
        ensures
            old(self).inactivity_scores matches Some(scores) ==> {
                &&& (r is Ok <==> validator_index < scores@.len())
                &&& r is Ok ==> (final(self).inactivity_scores matches Some(ns) && ns@
                    == scores@.update(validator_index as int, score))
            },
            old(self).inactivity_scores is None ==> r == Err::<(), Error>(
                Error::IncorrectStateVariant,
            ),
            !(r is Ok) ==> *final(self) == *old(self),
            *final(self) == (BeaconState {
                inactivity_scores: final(self).inactivity_scores,
                ..*old(self)
            }),
    {
        match &mut self.inactivity_scores {
            Some(scores) => {
                if validator_index < scores.len() {
                    scores.set(validator_index, score);
                    Ok(())
                } else {
                    Err(Error::InactivityScoresOutOfBounds(validator_index))
                }
            },
            None => Err(Error::IncorrectStateVariant),
        }
    }

    /// The participation flags of `epoch`, when `epoch` is the previous
    /// or current epoch and the fork holds participation at all.
    pub fn get_epoch_participation(
        &self,
        epoch: u64,
        previous_epoch: u64,
        current_epoch: u64,
    ) -> (r: Result<&Vec<u8>, Error>)
        ensures
            epoch == current_epoch ==> ({
                ||| (self.current_epoch_participation matches Some(p) && r == Ok::<&Vec<u8>, Error>(&p))
                ||| (self.current_epoch_participation is None && r == Err::<&Vec<u8>, Error>(
                    Error::IncorrectStateVariant,
                ))
            }),
            epoch != current_epoch && epoch == previous_epoch ==> ({
                ||| (self.previous_epoch_participation matches Some(p) && r == Ok::<&Vec<u8>, Error>(&p))
                ||| (self.previous_epoch_participation is None && r == Err::<&Vec<u8>, Error>(
                    Error::IncorrectStateVariant,
                ))
            }),
            epoch != current_epoch && epoch != previous_epoch ==> r == Err::<&Vec<u8>, Error>(
                Error::EpochOutOfBounds,
            ),
    {
        if epoch == current_epoch {
            match &self.current_epoch_participation {
                Some(p) => Ok(p),
                None => Err(Error::IncorrectStateVariant),
            }
        } else if epoch == previous_epoch {
            match &self.previous_epoch_participation {
                Some(p) => Ok(p),
                None => Err(Error::IncorrectStateVariant),
            }
        } else {
            Err(Error::EpochOutOfBounds)
        }
    }

    /// The current sync committee; an error on the genesis fork.
    pub fn current_sync_committee(&self) -> (r: Result<&SyncCommittee, Error>)
        ensures
            self.current_sync_committee matches Some(c) ==> r == Ok::<&SyncCommittee, Error>(&c),
            self.current_sync_committee is None ==> r == Err::<&SyncCommittee, Error>(
                Error::IncorrectStateVariant,
            ),
    {
        match &self.current_sync_committee {
            Some(c) => Ok(c),
            None => Err(Error::IncorrectStateVariant),
        }
    }

    /// The next sync committee; an error on the genesis fork.
    pub fn next_sync_committee(&self) -> (r: Result<&SyncCommittee, Error>)
        ensures
            self.next_sync_committee matches Some(c) ==> r == Ok::<&SyncCommittee, Error>(&c),
            self.next_sync_committee is None ==> r == Err::<&SyncCommittee, Error>(
                Error::IncorrectStateVariant,
            ),
    {
        match &self.next_sync_committee {
            Some(c) => Ok(c),
            None => Err(Error::IncorrectStateVariant),
        }
    }

    /// The execution payload header; an error before the execution fork.
    pub fn latest_execution_payload_header(&self) -> (r: Result<&ExecutionPayloadHeader, Error>)
        ensures
            self.latest_execution_payload_header matches Some(h) ==> r == Ok::<
                &ExecutionPayloadHeader,
                Error,
            >(&h),
            self.latest_execution_payload_header is None ==> r == Err::<
                &ExecutionPayloadHeader,
                Error,
            >(Error::IncorrectStateVariant),
    {
        match &self.latest_execution_payload_header {
            Some(h) => Ok(h),
            None => Err(Error::IncorrectStateVariant),
        }
    }

    /// The next withdrawal index; an error before the withdrawals fork.
    pub fn next_withdrawal_index(&self) -> (r: Result<u64, Error>)
        ensures
            self.next_withdrawal_index matches Some(i) ==> r == Ok::<u64, Error>(i),
            self.next_withdrawal_index is None ==> r == Err::<u64, Error>(
                Error::IncorrectStateVariant,
            ),
    {
        match self.next_withdrawal_index {
            Some(i) => Ok(i),
            None => Err(Error::IncorrectStateVariant),
        }
    }

    /// The next withdrawal's validator index; an error before the
    /// withdrawals fork.
    pub fn next_withdrawal_validator_index(&self) -> (r: Result<u64, Error>)
        ensures
            self.next_withdrawal_validator_index matches Some(i) ==> r == Ok::<u64, Error>(i),
            self.next_withdrawal_validator_index is None ==> r == Err::<u64, Error>(
                Error::IncorrectStateVariant,
            ),
    {
        match self.next_withdrawal_validator_index {
            Some(i) => Ok(i),
            None => Err(Error::IncorrectStateVariant),
        }
    }

    /// A snapshot of the applied block- and state-root buffers.
    pub fn historical_batch(&self) -> (r: HistoricalBatch)
        ensures
            r.block_roots@.len() == self.block_roots@.len(),
            forall|i: int| 0 <= i < r.block_roots@.len() ==> (#[trigger] r.block_roots@[i])@
                == self.block_roots@[i]@,
            r.state_roots@.len() == self.state_roots@.len(),
            forall|i: int| 0 <= i < r.state_roots@.len() ==> (#[trigger] r.state_roots@[i])@
                == self.state_roots@[i]@,
    {
        HistoricalBatch {
            block_roots: copy_hashes(&self.block_roots),
            state_roots: copy_hashes(&self.state_roots),
        }
    }

    /// The pubkey cache is a correct prefix of the registry: entry `i`
    /// holds the key of validator `i`.
    pub open spec fn pubkey_cache_consistent(&self) -> bool {
        &&& self.pubkey_cache@.len() <= self.validators@.len()
        &&& forall|i: int| 0 <= i < self.pubkey_cache@.len() ==> #[trigger] self.pubkey_cache@[i]
            == self.validators@[i].pubkey@
    }

    /// Extends the pubkey cache with the keys of every registry entry it
    /// does not cover yet. Never removes or reassigns an entry.
    pub fn update_pubkey_cache(&mut self) -> (r: Result<(), Error>)
        ensures
            r is Ok,
            old(self).pubkey_cache@.len() <= old(self).validators@.len() ==> final(self).pubkey_cache@.len() == old(self).validators@.len(),
            old(self).pubkey_cache@.len() > old(self).validators@.len() ==> final(self).pubkey_cache@ == old(self).pubkey_cache@,
            final(self).pubkey_cache@.len() >= old(self).pubkey_cache@.len(),
            forall|i: int| 0 <= i < old(self).pubkey_cache@.len() ==> #[trigger] final(self).pubkey_cache@[i] == old(self).pubkey_cache@[i],
            forall|i: int| old(self).pubkey_cache@.len() <= i < final(self).pubkey_cache@.len()
                ==> #[trigger] final(self).pubkey_cache@[i] == old(self).validators@[i].pubkey@,
            old(self).pubkey_cache_consistent() ==> final(self).pubkey_cache_consistent(),
            *final(self) == (BeaconState { pubkey_cache: final(self).pubkey_cache, ..*old(self) }),
    {
        while self.pubkey_cache.len() < self.validators.len()
            invariant
                old(self).pubkey_cache@.len() <= old(self).validators@.len() ==> self.pubkey_cache@.len()
                    <= old(self).validators@.len(),
                old(self).pubkey_cache@.len() > old(self).validators@.len() ==> self.pubkey_cache@.len()
                    == old(self).pubkey_cache@.len(),
                forall|i: int| 0 <= i < old(self).pubkey_cache@.len() ==> #[trigger] self.pubkey_cache@[i]
                    == old(self).pubkey_cache@[i],
                forall|i: int| old(self).pubkey_cache@.len() <= i < self.pubkey_cache@.len()
                    ==> #[trigger] self.pubkey_cache@[i] == old(self).validators@[i].pubkey@,
                self.pubkey_cache@.len() >= old(self).pubkey_cache@.len(),
                *self == (BeaconState { pubkey_cache: self.pubkey_cache, ..*old(self) }),
            decreases self.validators@.len() - self.pubkey_cache@.len(),
        {
            let index = self.pubkey_cache.len();
            let pubkey = self.validators.get(index).unwrap().pubkey_copied();
            let success = self.pubkey_cache.insert(pubkey, index);
            if !success {
                proof {
                    assert(false);
                }
                return Err(Error::PubkeyCacheInconsistent);
            }
        }
        proof {
            if old(self).pubkey_cache@.len() > old(self).validators@.len() {
                assert(self.pubkey_cache@ =~= old(self).pubkey_cache@);
            }
        }
        Ok(())
    }

    /// Replaces the pubkey cache with an empty one.
    pub fn drop_pubkey_cache(&mut self)
        ensures
            final(self).pubkey_cache@.len() == 0,
            *final(self) == (BeaconState { pubkey_cache: final(self).pubkey_cache, ..*old(self) }),
    {
        self.pubkey_cache = PubkeyCache::default();
    }

    /// Brings the pubkey cache up to date, then looks `pubkey` up in it.
    pub fn get_validator_index(&mut self, pubkey: &Vec<u8>) -> (r: Result<Option<usize>, Error>)
        ensures
            r is Ok,
            r matches Ok(o) ==> (o is Some <==> exists|i: int|
                0 <= i < final(self).pubkey_cache@.len() && final(self).pubkey_cache@[i]
                    == pubkey@),
            r matches Ok(o) ==> (o matches Some(i) ==> i < final(self).pubkey_cache@.len() && final(self).pubkey_cache@[i as int] == pubkey@),
            old(self).pubkey_cache_consistent() ==> final(self).pubkey_cache_consistent() && final(self).pubkey_cache@.len() == old(self).validators@.len(),
            *final(self) == (BeaconState { pubkey_cache: final(self).pubkey_cache, ..*old(self) }),
    {
        let update = self.update_pubkey_cache();
        match update {
            Ok(()) => (),
            Err(e) => {
                return Err(e);
            },
        }
        Ok(self.pubkey_cache.get(pubkey))
    }

    /// Looks `pubkey` up in the cache without touching it: an error when
    /// the cache does not cover the whole registry.
    pub fn get_validator_index_read_only(&self, pubkey: &Vec<u8>) -> (r: Result<
        Option<usize>,
        Error,
    >)
        ensures
            self.pubkey_cache@.len() != self.validators@.len() ==> r == Err::<Option<usize>, Error>(
                Error::PubkeyCacheIncomplete {
                    cache_len: self.pubkey_cache@.len() as usize,
                    registry_len: self.validators@.len() as usize,
                },
            ),
            self.pubkey_cache@.len() == self.validators@.len() ==> r is Ok,
            r matches Ok(o) ==> {
                &&& (o is Some <==> exists|i: int|
                    0 <= i < self.pubkey_cache@.len() && self.pubkey_cache@[i] == pubkey@)
                &&& (o matches Some(i) ==> i < self.pubkey_cache@.len()
                    && self.pubkey_cache@[i as int] == pubkey@ && forall|j: int|
                    0 <= j < i ==> self.pubkey_cache@[j] != pubkey@)
            },
    {
        if self.pubkey_cache.len() != self.validators.len() {
            return Err(Error::PubkeyCacheIncomplete {
                cache_len: self.pubkey_cache.len(),
                registry_len: self.validators.len(),
            });
        }
        Ok(self.pubkey_cache.get(pubkey))
    }
}

/// Copies a vector of hashes, value for value.
pub(crate) fn copy_hashes(v: &Vec<Hash256>) -> (r: Vec<Hash256>)
    ensures
        r@.len() == v@.len(),
        forall|i: int| 0 <= i < r@.len() ==> (#[trigger] r@[i])@ == v@[i]@,
{
    let mut r: Vec<Hash256> = Vec::new();
    let mut i: usize = 0;
    while i < v.len()
        invariant
            i <= v@.len(),
            r@.len() == i,
            forall|j: int| 0 <= j < i ==> (#[trigger] r@[j])@ == v@[j]@,
        decreases v@.len() - i,
    {
        r.push(v.get(i).unwrap().copied());
        i = i + 1;
    }
    r
}


impl BeaconState {
    /// The fixed slot of each relative epoch in the rotating cache array.
    pub fn committee_cache_index(relative_epoch: crate::relative_epoch::RelativeEpoch) -> (r:
        usize)
        ensures
            r as int == relative_epoch.cache_index_spec(),
            r < crate::CACHED_EPOCHS,
    {
        match relative_epoch {
            crate::relative_epoch::RelativeEpoch::Previous => 0,
            crate::relative_epoch::RelativeEpoch::Current => 1,
            crate::relative_epoch::RelativeEpoch::Next => 2,
        }
    }

    /// The absolute epoch a relative epoch names, seen from this state.
    pub open spec fn relative_epoch_abs(&self, relative_epoch: crate::relative_epoch::RelativeEpoch, spec: &ChainSpec) -> u64 {
        relative_epoch.into_epoch_spec(self.current_epoch_spec(spec))
    }

    /// The cache slot of `relative_epoch` when it is built for exactly
    /// that epoch, and an uninitialized-cache error otherwise.
    pub fn committee_cache(&self, relative_epoch: crate::relative_epoch::RelativeEpoch, spec: &ChainSpec) -> (r: Result<
        &CommitteeCache,
        Error,
    >)
        requires
            self.wf(spec),
        ensures
            ({
                let i = relative_epoch.cache_index_spec();
                let e = self.relative_epoch_abs(relative_epoch, spec);
                if self.committee_caches@[i].initialized_epoch == Some(e) {
                    r == Ok::<&CommitteeCache, Error>(&self.committee_caches@[i])
                } else {
                    r == Err::<&CommitteeCache, Error>(
                        Error::CommitteeCacheUninitialized(Some(relative_epoch)),
                    )
                }
            }),
            r matches Ok(c) ==> c.wf() && c.initialized_epoch == Some(
                self.relative_epoch_abs(relative_epoch, spec),
            ),
    {
        let i = Self::committee_cache_index(relative_epoch);
        let cache = self.committee_caches.get(i).unwrap();
        let epoch = relative_epoch.into_epoch(self.current_epoch(spec));
        if cache.is_initialized_at(epoch) {
            Ok(cache)
        } else {
            Err(Error::CommitteeCacheUninitialized(Some(relative_epoch)))
        }
    }

    /// Returns `true` iff the cache slot of `relative_epoch` is built for
    /// exactly that epoch.
    pub fn committee_cache_is_initialized(&self, relative_epoch: crate::relative_epoch::RelativeEpoch, spec: &ChainSpec) -> (r:
        bool)
        requires
            self.wf(spec),
        ensures
            r == (self.committee_caches@[relative_epoch.cache_index_spec()].initialized_epoch
                == Some(self.relative_epoch_abs(relative_epoch, spec))),
    {
        let i = Self::committee_cache_index(relative_epoch);
        let epoch = relative_epoch.into_epoch(self.current_epoch(spec));
        self.committee_caches.get(i).unwrap().is_initialized_at(epoch)
    }

    /// The cache slot covering the epoch of `slot`: the slot's epoch must
    /// be Previous, Current or Next, and that slot of the cache array must
    /// be built for it.
    fn committee_cache_at_slot(&self, slot: u64, spec: &ChainSpec) -> (r: Result<
        &CommitteeCache,
        Error,
    >)
        requires
            self.wf(spec),
        ensures
            ({
                let epoch = Self::epoch_of_slot_spec(slot, spec);
                let current = self.current_epoch_spec(spec);
                match crate::relative_epoch::RelativeEpoch::from_epoch_spec(current, epoch) {
                    Ok(rel) => {
                        let i = rel.cache_index_spec();
                        if self.committee_caches@[i].initialized_epoch == Some(epoch) {
                            r == Ok::<&CommitteeCache, Error>(&self.committee_caches@[i])
                        } else {
                            r == Err::<&CommitteeCache, Error>(
                                Error::CommitteeCacheUninitialized(Some(rel)),
                            )
                        }
                    },
                    Err(e) => r == Err::<&CommitteeCache, Error>(Error::RelativeEpochError(e)),
                }
            }),
            r matches Ok(c) ==> c.wf() && c.initialized_epoch == Some(
                Self::epoch_of_slot_spec(slot, spec),
            ),
    {
        let epoch = slot / spec.slots_per_epoch;
        let current = self.current_epoch(spec);
        let rel = match crate::relative_epoch::RelativeEpoch::from_epoch(current, epoch) {
            Ok(rel) => rel,
            Err(e) => {
                return Err(Error::RelativeEpochError(e));
            },
        };
        proof {
            if rel is Previous {
                assert(self.relative_epoch_abs(rel, spec) == epoch);
            }
        }
        self.committee_cache(rel, spec)
    }

    /// Builds a fresh committee cache for `epoch` without attaching it.
    pub fn initialize_committee_cache(&self, epoch: u64, spec: &ChainSpec) -> (r: Result<
        CommitteeCache,
        Error,
    >)
        requires
            self.wf(spec),
        ensures
            r is Ok <==> (Self::seed_arith_ok(epoch, spec)
                && crate::committee_cache::build_would_succeed(self.validators@, epoch, spec)),
            r matches Ok(c) ==> {
                &&& crate::committee_cache::is_built_for(
                    &c,
                    self.validators@,
                    epoch,
                    hash32_of(self.seed_input_spec(epoch, Domain::BeaconAttester, spec)),
                    spec,
                )
                &&& c.wf()
            },
            crate::committee_cache::active_indices_spec(self.validators@, epoch).len() == 0 ==> r
                == Err::<CommitteeCache, Error>(Error::InsufficientValidators),
    {
        CommitteeCache::initialized(self, epoch, spec)
    }

    /// Rebuilds the cache slot of `relative_epoch`, whether or not it was
    /// built; the rest of the state is unchanged.
    pub fn force_build_committee_cache(&mut self, relative_epoch: crate::relative_epoch::RelativeEpoch, spec: &ChainSpec) -> (r:
        Result<(), Error>)
        requires
            old(self).wf(spec),
        ensures
            ({
                let e = old(self).relative_epoch_abs(relative_epoch, spec);
                &&& (r is Ok <==> (Self::seed_arith_ok(e, spec)
                    && crate::committee_cache::build_would_succeed(old(self).validators@, e, spec)))
                &&& (r is Ok ==> {
                    &&& crate::committee_cache::is_built_for(
                        &final(self).committee_caches@[relative_epoch.cache_index_spec()],
                        old(self).validators@,
                        e,
                        hash32_of(old(self).seed_input_spec(e, Domain::BeaconAttester, spec)),
                        spec,
                    )
                    &&& final(self).committee_caches@ == old(self).committee_caches@.update(
                        relative_epoch.cache_index_spec(),
                        final(self).committee_caches@[relative_epoch.cache_index_spec()],
                    )
                })
                &&& (crate::committee_cache::active_indices_spec(old(self).validators@, e).len()
                    == 0 ==> r == Err::<(), Error>(Error::InsufficientValidators))
            }),
            !(r is Ok) ==> *final(self) == *old(self),
            *final(self) == (BeaconState {
                committee_caches: final(self).committee_caches,
                ..*old(self)
            }),
            final(self).wf(spec),
    {
        let epoch = relative_epoch.into_epoch(self.current_epoch(spec));
        let i = Self::committee_cache_index(relative_epoch);
        let cache = match self.initialize_committee_cache(epoch, spec) {
            Ok(c) => c,
            Err(e) => {
                return Err(e);
            },
        };
        self.committee_caches.set(i, cache);
        Ok(())
    }

    /// The total effective balance of the validators active at `epoch`,
    /// floored at one effective-balance increment.
    pub fn compute_total_active_balance(&self, epoch: u64, spec: &ChainSpec) -> (r: Result<
        u64,
        Error,
    >)
        requires
            self.wf(spec),
        ensures
            ({
                let current = self.current_epoch_spec(spec);
                let total = active_balance_upto(self.validators@, epoch, self.validators@.len());
                if epoch != current && epoch != current + 1 {
                    r == Err::<u64, Error>(Error::EpochOutOfBounds)
                } else if total > u64::MAX {
                    r == Err::<u64, Error>(Error::ArithError(ArithError::Overflow))
                } else if total < spec.effective_balance_increment {
                    r == Ok::<u64, Error>(spec.effective_balance_increment)
                } else {
                    r == Ok::<u64, Error>(total as u64)
                }
            }),
    {
        let current = self.current_epoch(spec);
        if epoch != current && !(current < u64::MAX && epoch == current + 1) {
            return Err(Error::EpochOutOfBounds);
        }
        let mut total: u64 = 0;
        let mut i: usize = 0;
        let n = self.validators.len();
        while i < n
            invariant
                n == self.validators@.len(),
                i <= n,
                total == active_balance_upto(self.validators@, epoch, i as nat),
                epoch == self.current_epoch_spec(spec) || epoch == self.current_epoch_spec(spec)
                    + 1,
            decreases n - i,
        {
            let v = self.validators.get(i).unwrap();
            if v.is_active_at(epoch) {
                total = match total.checked_add(v.effective_balance()) {
                    Some(t) => t,
                    None => {
                        proof {
                            lemma_active_balance_mono(
                                self.validators@,
                                epoch,
                                (i + 1) as nat,
                                self.validators@.len(),
                            );
                        }
                        return Err(Error::ArithError(ArithError::Overflow));
                    },
                };
            }
            i = i + 1;
        }
        if total < spec.effective_balance_increment {
            Ok(spec.effective_balance_increment)
        } else {
            Ok(total)
        }
    }

    /// The cached total active balance of the current epoch: an error
    /// when the cell is unbuilt or holds another epoch's total.
    pub fn get_total_active_balance_at_epoch(&self, epoch: u64) -> (r: Result<u64, Error>)
        ensures
            self.total_active_balance is None ==> r == Err::<u64, Error>(
                Error::TotalActiveBalanceCacheUninitialized,
            ),
            self.total_active_balance matches Some(cell) ==> {
                &&& cell.0 == epoch ==> r == Ok::<u64, Error>(cell.1)
                &&& cell.0 != epoch ==> r == Err::<u64, Error>(
                    Error::TotalActiveBalanceCacheInconsistent {
                        initialized_epoch: cell.0,
                        current_epoch: epoch,
                    },
                )
            },
    {
        match self.total_active_balance {
            None => Err(Error::TotalActiveBalanceCacheUninitialized),
            Some((initialized_epoch, balance)) => {
                if initialized_epoch == epoch {
                    Ok(balance)
                } else {
                    Err(Error::TotalActiveBalanceCacheInconsistent {
                        initialized_epoch,
                        current_epoch: epoch,
                    })
                }
            },
        }
    }

    /// The cached total active balance of the current epoch.
    pub fn get_total_active_balance(&self, spec: &ChainSpec) -> (r: Result<u64, Error>)
        requires
            self.wf(spec),
        ensures
            self.total_active_balance is None ==> r == Err::<u64, Error>(
                Error::TotalActiveBalanceCacheUninitialized,
            ),
            self.total_active_balance matches Some(cell) ==> {
                &&& cell.0 == self.current_epoch_spec(spec) ==> r == Ok::<u64, Error>(cell.1)
                &&& cell.0 != self.current_epoch_spec(spec) ==> r is Err
            },
    {
        self.get_total_active_balance_at_epoch(self.current_epoch(spec))
    }

    /// Overwrites the total-active-balance cell.
    pub fn set_total_active_balance(&mut self, epoch: u64, balance: u64)
        ensures
            final(self).total_active_balance == Some((epoch, balance)),
            *final(self) == (BeaconState {
                total_active_balance: final(self).total_active_balance,
                ..*old(self)
            }),
    {
        self.total_active_balance = Some((epoch, balance));
    }

    /// Empties the total-active-balance cell.
    pub fn drop_total_active_balance_cache(&mut self)
        ensures
            final(self).total_active_balance is None,
            *final(self) == (BeaconState {
                total_active_balance: final(self).total_active_balance,
                ..*old(self)
            }),
    {
        self.total_active_balance = None;
    }

    /// Computes and stores the total active balance at `epoch`, whether
    /// or not the cell was filled.
    pub fn force_build_total_active_balance_cache_at(&mut self, epoch: u64, spec: &ChainSpec) -> (r:
        Result<(), Error>)
        requires
            old(self).wf(spec),
        ensures
            ({
                let current = old(self).current_epoch_spec(spec);
                let total = active_balance_upto(
                    old(self).validators@,
                    epoch,
                    old(self).validators@.len(),
                );
                &&& (r is Ok <==> (epoch == current || epoch == current + 1) && total <= u64::MAX)
                &&& (r is Ok ==> (final(self).total_active_balance matches Some(cell) && cell.0
                    == epoch && cell.1 == (if total < spec.effective_balance_increment {
                    spec.effective_balance_increment as int
                } else {
                    total
                })))
                &&& (!(r is Ok) && (epoch == current || epoch == current + 1) ==> r == Err::<
                    (),
                    Error,
                >(Error::ArithError(ArithError::Overflow)))
                &&& (!(r is Ok) && !(epoch == current || epoch == current + 1) ==> r == Err::<
                    (),
                    Error,
                >(Error::EpochOutOfBounds))
            }),
            !(r is Ok) ==> *final(self) == *old(self),
            *final(self) == (BeaconState {
                total_active_balance: final(self).total_active_balance,
                ..*old(self)
            }),
            final(self).wf(spec),
    {
        let total = match self.compute_total_active_balance(epoch, spec) {
            Ok(t) => t,
            Err(e) => {
                return Err(e);
            },
        };
        self.total_active_balance = Some((epoch, total));
        Ok(())
    }

    /// Computes and stores the total active balance at `epoch` unless the
    /// cell already holds that epoch's total.
    pub fn build_total_active_balance_cache_at(&mut self, epoch: u64, spec: &ChainSpec) -> (r:
        Result<(), Error>)
        requires
            old(self).wf(spec),
        ensures
            old(self).total_active_balance matches Some(cell) && cell.0 == epoch ==> (*final(self)
                == *old(self) && r is Ok),
            ({
                let current = old(self).current_epoch_spec(spec);
                let total = active_balance_upto(
                    old(self).validators@,
                    epoch,
                    old(self).validators@.len(),
                );
                let hit = old(self).total_active_balance matches Some(cell) && cell.0 == epoch;
                r is Ok <==> (hit || ((epoch == current || epoch == current + 1) && total
                    <= u64::MAX))
            }),
            r is Ok ==> (final(self).total_active_balance matches Some(cell) && cell.0 == epoch),
            ({
                let current = old(self).current_epoch_spec(spec);
                let hit = old(self).total_active_balance matches Some(cell) && cell.0 == epoch;
                &&& (!(r is Ok) && (epoch == current || epoch == current + 1) ==> r == Err::<
                    (),
                    Error,
                >(Error::ArithError(ArithError::Overflow)))
                &&& (!(r is Ok) && !(epoch == current || epoch == current + 1) ==> r == Err::<
                    (),
                    Error,
                >(Error::EpochOutOfBounds))
                &&& (!(r is Ok) ==> *final(self) == *old(self))
            }),
            *final(self) == (BeaconState {
                total_active_balance: final(self).total_active_balance,
                ..*old(self)
            }),
            final(self).wf(spec),
    {
        let hit = match self.get_total_active_balance_at_epoch(epoch) {
            Ok(_) => true,
            Err(_) => false,
        };
        if !hit {
            match self.force_build_total_active_balance_cache_at(epoch, spec) {
                Ok(()) => (),
                Err(e) => {
                    return Err(e);
                },
            }
        }
        Ok(())
    }
}

/// The total effective balance of the validators among `vals[..k]` that
/// are active at `epoch`.
pub open spec fn active_balance_upto(vals: Seq<Validator>, epoch: u64, k: nat) -> int
    decreases k,
{
    if k == 0 {
        0
    } else {
        active_balance_upto(vals, epoch, (k - 1) as nat) + if vals[k - 1].is_active_at_spec(
            epoch,
        ) {
            vals[k - 1].effective_balance as int
        } else {
            0
        }
    }
}

/// The active-balance prefix sums grow with the prefix.
pub proof fn lemma_active_balance_mono(vals: Seq<Validator>, epoch: u64, k1: nat, k2: nat)
    requires
        k1 <= k2,
    ensures
        active_balance_upto(vals, epoch, k1) <= active_balance_upto(vals, epoch, k2),
    decreases k2,
{
    if k1 < k2 {
        lemma_active_balance_mono(vals, epoch, k1, (k2 - 1) as nat);
    }
}


impl BeaconState {
    /// Whether the cache slot of `relative_epoch` can serve its epoch
    /// after a build call: it already holds that epoch's cache, or a
    /// fresh build of the epoch would succeed.
    pub open spec fn committee_cache_build_ok(&self, relative_epoch: crate::relative_epoch::RelativeEpoch, spec: &ChainSpec) -> bool {
        let e = self.relative_epoch_abs(relative_epoch, spec);
        ||| self.committee_caches@[relative_epoch.cache_index_spec()].initialized_epoch == Some(e)
        ||| (Self::seed_arith_ok(e, spec) && crate::committee_cache::build_would_succeed(
            self.validators@,
            e,
            spec,
        ))
    }

    /// Whether the total-active-balance cell can serve a build of the
    /// current epoch: already filled, or the active-balance sum fits the
    /// machine.
    pub open spec fn total_balance_build_ok(&self, spec: &ChainSpec) -> bool {
        ||| self.total_active_balance is Some
        ||| active_balance_upto(
            self.validators@,
            self.current_epoch_spec(spec),
            self.validators@.len(),
        ) <= u64::MAX
    }

    /// Rotates the committee caches one epoch forward: Previous takes
    /// Current's cache, Current takes Next's, and Next is emptied. No new
    /// cache is built.
    pub fn advance_caches(&mut self, spec: &ChainSpec) -> (r: Result<(), Error>)
        requires
            old(self).wf(spec),
        ensures
            r is Ok,
            final(self).committee_caches@.len() == crate::CACHED_EPOCHS,
            final(self).committee_caches@[0] == old(self).committee_caches@[1],
            final(self).committee_caches@[1] == old(self).committee_caches@[2],
            final(self).committee_caches@[2].initialized_epoch is None,
            *final(self) == (BeaconState {
                committee_caches: final(self).committee_caches,
                ..*old(self)
            }),
            final(self).wf(spec),
    {
        let _rotated = self.committee_caches.remove(0);
        self.committee_caches.push(CommitteeCache::default());
        Ok(())
    }

    /// Empties the cache slot of `relative_epoch`.
    pub fn drop_committee_cache(&mut self, relative_epoch: crate::relative_epoch::RelativeEpoch, spec: &ChainSpec) -> (r:
        Result<(), Error>)
        requires
            old(self).wf(spec),
        ensures
            r is Ok,
            final(self).committee_caches@.len() == crate::CACHED_EPOCHS,
            final(self).committee_caches@[relative_epoch.cache_index_spec()].initialized_epoch
                is None,
            forall|j: int| 0 <= j < crate::CACHED_EPOCHS && j != relative_epoch.cache_index_spec()
                ==> final(self).committee_caches@[j] == old(self).committee_caches@[j],
            *final(self) == (BeaconState {
                committee_caches: final(self).committee_caches,
                ..*old(self)
            }),
            final(self).wf(spec),
    {
        let i = Self::committee_cache_index(relative_epoch);
        self.committee_caches.set(i, CommitteeCache::default());
        Ok(())
    }

    /// Builds the cache slot of `relative_epoch` unless it is already
    /// built for that epoch; building the Current slot also fills the
    /// total-active-balance cell when it is empty.
    pub fn build_committee_cache(&mut self, relative_epoch: crate::relative_epoch::RelativeEpoch, spec: &ChainSpec) -> (r:
        Result<(), Error>)
        requires
            old(self).wf(spec),
        ensures
            r is Ok <==> (old(self).committee_cache_build_ok(relative_epoch, spec)
                && (relative_epoch is Current ==> old(self).total_balance_build_ok(spec))),
            !old(self).committee_cache_build_ok(relative_epoch, spec) ==> *final(self) == *old(self),
            old(self).committee_cache_build_ok(relative_epoch, spec) && !(r is Ok) ==> r == Err::<
                (),
                Error,
            >(Error::ArithError(ArithError::Overflow)),
            ({
                let e = old(self).relative_epoch_abs(relative_epoch, spec);
                let i = relative_epoch.cache_index_spec();
                old(self).committee_caches@[i].initialized_epoch != Some(e)
                    && crate::committee_cache::active_indices_spec(old(self).validators@, e).len()
                    == 0 ==> r == Err::<(), Error>(Error::InsufficientValidators)
            }),
            old(self).total_active_balance is Some ==> final(self).total_active_balance == old(self).total_active_balance,
            !(relative_epoch is Current) ==> final(self).total_active_balance == old(self).total_active_balance,
            r is Ok && relative_epoch is Current ==> final(self).total_active_balance is Some,
            r is Ok && relative_epoch is Current && old(self).total_active_balance is None ==> (
            final(self).total_active_balance matches Some(cell) && cell.0 == old(self).current_epoch_spec(spec)),
            ({
                let e = old(self).relative_epoch_abs(relative_epoch, spec);
                let i = relative_epoch.cache_index_spec();
                old(self).committee_caches@[i].initialized_epoch == Some(e) && !(relative_epoch
                    is Current && old(self).total_active_balance is None) ==> (*final(self)
                    == *old(self) && r is Ok)
            }),
            old(self).committee_cache_build_ok(relative_epoch, spec) ==> final(self).committee_caches@[relative_epoch.cache_index_spec()].initialized_epoch
                == Some(old(self).relative_epoch_abs(relative_epoch, spec)),
            ({
                let e = old(self).relative_epoch_abs(relative_epoch, spec);
                let i = relative_epoch.cache_index_spec();
                old(self).committee_caches@[i].initialized_epoch == Some(e) ==> final(self).committee_caches@[i] == old(self).committee_caches@[i]
            }),
            ({
                let e = old(self).relative_epoch_abs(relative_epoch, spec);
                let i = relative_epoch.cache_index_spec();
                old(self).committee_caches@[i].initialized_epoch != Some(e)
                    && Self::seed_arith_ok(e, spec)
                    && crate::committee_cache::build_would_succeed(old(self).validators@, e, spec)
                    ==> crate::committee_cache::is_built_for(
                    &final(self).committee_caches@[i],
                    old(self).validators@,
                    e,
                    hash32_of(old(self).seed_input_spec(e, Domain::BeaconAttester, spec)),
                    spec,
                )
            }),
            forall|j: int| 0 <= j < crate::CACHED_EPOCHS && j != relative_epoch.cache_index_spec()
                ==> final(self).committee_caches@[j] == old(self).committee_caches@[j],
            final(self).committee_caches@.len() == crate::CACHED_EPOCHS,
            *final(self) == (BeaconState {
                committee_caches: final(self).committee_caches,
                total_active_balance: final(self).total_active_balance,
                ..*old(self)
            }),
            final(self).wf(spec),
    {
        let i = Self::committee_cache_index(relative_epoch);
        let epoch = relative_epoch.into_epoch(self.current_epoch(spec));
        let is_initialized = self.committee_caches.get(i).unwrap().is_initialized_at(epoch);
        if !is_initialized {
            match self.force_build_committee_cache(relative_epoch, spec) {
                Ok(()) => (),
                Err(e) => {
                    return Err(e);
                },
            }
        }
        let total_missing = match self.total_active_balance {
            Some(_) => false,
            None => true,
        };
        if total_missing && matches!(relative_epoch, crate::relative_epoch::RelativeEpoch::Current) {
            let current = self.current_epoch(spec);
            match self.build_total_active_balance_cache_at(current, spec) {
                Ok(()) => (),
                Err(e) => {
                    return Err(e);
                },
            }
        }
        Ok(())
    }

    /// Whether all three committee caches and the total-balance cell can
    /// be brought up to date by one build pass.
    pub open spec fn all_caches_build_ok(&self, spec: &ChainSpec) -> bool {
        &&& self.committee_cache_build_ok(crate::relative_epoch::RelativeEpoch::Previous, spec)
        &&& self.committee_cache_build_ok(crate::relative_epoch::RelativeEpoch::Current, spec)
        &&& self.committee_cache_build_ok(crate::relative_epoch::RelativeEpoch::Next, spec)
        &&& self.total_balance_build_ok(spec)
    }

    /// Builds all three committee caches, as far as they need building.
    pub fn build_all_committee_caches(&mut self, spec: &ChainSpec) -> (r: Result<(), Error>)
        requires
            old(self).wf(spec),
        ensures
            final(self).wf(spec),
            r is Ok <==> old(self).all_caches_build_ok(spec),
            r is Ok ==> forall|rel: crate::relative_epoch::RelativeEpoch|
                final(self).committee_caches@[#[trigger] rel.cache_index_spec()].initialized_epoch
                    == Some(final(self).relative_epoch_abs(rel, spec)),
            *final(self) == (BeaconState {
                committee_caches: final(self).committee_caches,
                total_active_balance: final(self).total_active_balance,
                ..*old(self)
            }),
    {
        match self.build_committee_cache(crate::relative_epoch::RelativeEpoch::Previous, spec) {
            Ok(()) => (),
            Err(e) => {
                return Err(e);
            },
        }
        let ghost s1 = *self;
        proof {
            lemma_build_conditions_carry(&s1, old(self), spec);
        }
        match self.build_committee_cache(crate::relative_epoch::RelativeEpoch::Current, spec) {
            Ok(()) => (),
            Err(e) => {
                return Err(e);
            },
        }
        let ghost s2 = *self;
        proof {
            lemma_build_conditions_carry(&s2, old(self), spec);
        }
        match self.build_committee_cache(crate::relative_epoch::RelativeEpoch::Next, spec) {
            Ok(()) => (),
            Err(e) => {
                return Err(e);
            },
        }
        Ok(())
    }

    /// Builds the exit cache from the registry unless it is already
    /// built.
    pub fn build_exit_cache(&mut self, spec: &ChainSpec) -> (r: Result<(), Error>)
        requires
            old(self).wf(spec),
        ensures
            r is Ok,
            final(self).exit_cache.initialized,
            old(self).exit_cache.initialized ==> *final(self) == *old(self),
            *final(self) == (BeaconState { exit_cache: final(self).exit_cache, ..*old(self) }),
            final(self).wf(spec),
    {
        let initialized = match self.exit_cache.check_initialized() {
            Ok(()) => true,
            Err(_) => false,
        };
        if !initialized {
            let cache = match ExitCache::new(&self.validators, spec) {
                Ok(c) => c,
                Err(e) => {
                    return Err(e);
                },
            };
            self.exit_cache = cache;
        }
        Ok(())
    }

    /// Builds the slashings cache at the latest block's slot unless it is
    /// already keyed to that slot.
    pub fn build_slashings_cache(&mut self) -> (r: Result<(), Error>)
        requires
            old(self).validators@.len() <= u64::MAX,
        ensures
            r is Ok,
            final(self).slashings_cache.latest_block_slot == Some(
                old(self).latest_block_header.slot,
            ),
            old(self).slashings_cache.latest_block_slot == Some(
                old(self).latest_block_header.slot,
            ) ==> *final(self) == *old(self),
            *final(self) == (BeaconState {
                slashings_cache: final(self).slashings_cache,
                ..*old(self)
            }),
    {
        let latest_block_slot = self.latest_block_header.slot;
        if !self.slashings_cache.is_initialized(latest_block_slot) {
            self.slashings_cache = SlashingsCache::new(latest_block_slot, &self.validators);
        }
        Ok(())
    }

    /// Returns `true` iff the slashings cache is keyed to the latest
    /// block's slot.
    pub fn slashings_cache_is_initialized(&self) -> (r: bool)
        ensures
            r == (self.slashings_cache.latest_block_slot == Some(self.latest_block_header.slot)),
    {
        self.slashings_cache.is_initialized(self.latest_block_header.slot)
    }

    /// Builds every cache that block processing relies on: the three
    /// committee caches, the pubkey cache, the exit cache and the
    /// slashings cache.
    pub fn build_caches(&mut self, spec: &ChainSpec) -> (r: Result<(), Error>)
        requires
            old(self).wf(spec),
            old(self).validators@.len() <= u64::MAX,
        ensures
            final(self).wf(spec),
            r is Ok <==> old(self).all_caches_build_ok(spec),
            r is Ok ==> forall|rel: crate::relative_epoch::RelativeEpoch|
                final(self).committee_caches@[#[trigger] rel.cache_index_spec()].initialized_epoch
                    == Some(final(self).relative_epoch_abs(rel, spec)),
            r is Ok ==> final(self).exit_cache.initialized,
            r is Ok ==> final(self).slashings_cache.latest_block_slot == Some(
                final(self).latest_block_header.slot,
            ),
            r is Ok ==> final(self).pubkey_cache@.len() >= final(self).validators@.len(),
    {
        match self.build_all_committee_caches(spec) {
            Ok(()) => (),
            Err(e) => {
                return Err(e);
            },
        }
        match self.update_pubkey_cache() {
            Ok(()) => (),
            Err(e) => {
                return Err(e);
            },
        }
        match self.build_exit_cache(spec) {
            Ok(()) => (),
            Err(e) => {
                return Err(e);
            },
        }
        match self.build_slashings_cache() {
            Ok(()) => (),
            Err(e) => {
                return Err(e);
            },
        }
        Ok(())
    }

    /// Drops every derived cache, leaving all of them unbuilt.
    pub fn drop_all_caches(&mut self, spec: &ChainSpec) -> (r: Result<(), Error>)
        requires
            old(self).wf(spec),
        ensures
            r is Ok,
            final(self).total_active_balance is None,
            final(self).committee_caches@.len() == crate::CACHED_EPOCHS,
            forall|j: int| 0 <= j < crate::CACHED_EPOCHS
                ==> (#[trigger] final(self).committee_caches@[j]).initialized_epoch is None,
            final(self).pubkey_cache@.len() == 0,
            !final(self).exit_cache.initialized,
            final(self).slashings_cache.latest_block_slot is None,
            final(self).progressive_balances_cache.inner is None,
            !final(self).epoch_cache.initialized,
            *final(self) == (BeaconState {
                total_active_balance: final(self).total_active_balance,
                committee_caches: final(self).committee_caches,
                pubkey_cache: final(self).pubkey_cache,
                exit_cache: final(self).exit_cache,
                slashings_cache: final(self).slashings_cache,
                progressive_balances_cache: final(self).progressive_balances_cache,
                epoch_cache: final(self).epoch_cache,
                ..*old(self)
            }),
            final(self).wf(spec),
    {
        self.total_active_balance = None;
        self.committee_caches.set(0, CommitteeCache::default());
        self.committee_caches.set(1, CommitteeCache::default());
        self.committee_caches.set(2, CommitteeCache::default());
        self.pubkey_cache = PubkeyCache::default();
        self.progressive_balances_cache = ProgressiveBalancesCache::default();
        self.exit_cache = ExitCache::default();
        self.slashings_cache = SlashingsCache::default();
        self.epoch_cache = EpochCache::default();
        Ok(())
    }

    /// The number of validators who may leave the validator set in the
    /// current epoch: the active count over the churn quotient, floored
    /// at the protocol minimum.
    pub fn get_churn_limit(&self, spec: &ChainSpec) -> (r: Result<u64, Error>)
        requires
            self.wf(spec),
        ensures
            ({
                let i = crate::relative_epoch::RelativeEpoch::Current.cache_index_spec();
                let c = self.committee_caches@[i];
                if c.initialized_epoch != Some(self.current_epoch_spec(spec)) {
                    r == Err::<u64, Error>(
                        Error::CommitteeCacheUninitialized(
                            Some(crate::relative_epoch::RelativeEpoch::Current),
                        ),
                    )
                } else if spec.churn_limit_quotient == 0 {
                    r == Err::<u64, Error>(Error::ArithError(ArithError::DivisionByZero))
                } else {
                    let quotient = c.shuffling@.len() as int / spec.churn_limit_quotient as int;
                    if quotient < spec.min_per_epoch_churn_limit {
                        r == Ok::<u64, Error>(spec.min_per_epoch_churn_limit)
                    } else {
                        r == Ok::<u64, Error>(quotient as u64)
                    }
                }
            }),
    {
        let cache = match self.committee_cache(crate::relative_epoch::RelativeEpoch::Current, spec) {
            Ok(c) => c,
            Err(e) => {
                return Err(e);
            },
        };
        if spec.churn_limit_quotient == 0 {
            return Err(Error::ArithError(ArithError::DivisionByZero));
        }
        let quotient = (cache.active_validator_count() as u64) / spec.churn_limit_quotient;
        if quotient < spec.min_per_epoch_churn_limit {
            Ok(spec.min_per_epoch_churn_limit)
        } else {
            Ok(quotient)
        }
    }

    /// The number of validators who may join the validator set in the
    /// current epoch: the exit churn, additionally capped from the
    /// newest fork onward.
    pub fn get_activation_churn_limit(&self, spec: &ChainSpec) -> (r: Result<u64, Error>)
        requires
            self.wf(spec),
        ensures
            ({
                let i = crate::relative_epoch::RelativeEpoch::Current.cache_index_spec();
                let c = self.committee_caches@[i];
                if c.initialized_epoch != Some(self.current_epoch_spec(spec)) {
                    r == Err::<u64, Error>(
                        Error::CommitteeCacheUninitialized(
                            Some(crate::relative_epoch::RelativeEpoch::Current),
                        ),
                    )
                } else if spec.churn_limit_quotient == 0 {
                    r == Err::<u64, Error>(Error::ArithError(ArithError::DivisionByZero))
                } else {
                    let quotient = c.shuffling@.len() as int / spec.churn_limit_quotient as int;
                    let churn = if quotient < spec.min_per_epoch_churn_limit {
                        spec.min_per_epoch_churn_limit as int
                    } else {
                        quotient
                    };
                    if self.fork_name is Deneb && spec.max_per_epoch_activation_churn_limit
                        < churn {
                        r == Ok::<u64, Error>(spec.max_per_epoch_activation_churn_limit)
                    } else {
                        r == Ok::<u64, Error>(churn as u64)
                    }
                }
            }),
    {
        let churn = match self.get_churn_limit(spec) {
            Ok(c) => c,
            Err(e) => {
                return Err(e);
            },
        };
        match self.fork_name {
            ForkName::Deneb => {
                if spec.max_per_epoch_activation_churn_limit < churn {
                    Ok(spec.max_per_epoch_activation_churn_limit)
                } else {
                    Ok(churn)
                }
            },
            _ => Ok(churn),
        }
    }
}


impl BeaconState {
    /// The number of committees at `slot`, from the cache of the slot's
    /// epoch.
    pub fn get_committee_count_at_slot(&self, slot: u64, spec: &ChainSpec) -> (r: Result<
        u64,
        Error,
    >)
        requires
            self.wf(spec),
        ensures
            ({
                let epoch = Self::epoch_of_slot_spec(slot, spec);
                let current = self.current_epoch_spec(spec);
                match crate::relative_epoch::RelativeEpoch::from_epoch_spec(current, epoch) {
                    Ok(rel) => {
                        let c = self.committee_caches@[rel.cache_index_spec()];
                        if c.initialized_epoch == Some(epoch) {
                            r == Ok::<u64, Error>(c.committees_per_slot)
                        } else {
                            r == Err::<u64, Error>(
                                Error::CommitteeCacheUninitialized(Some(rel)),
                            )
                        }
                    },
                    Err(e) => r == Err::<u64, Error>(Error::RelativeEpochError(e)),
                }
            }),
    {
        let cache = match self.committee_cache_at_slot(slot, spec) {
            Ok(c) => c,
            Err(e) => {
                return Err(e);
            },
        };
        Ok(cache.committees_per_slot())
    }

    /// The number of committees in the whole epoch that `relative_epoch`
    /// names.
    pub fn get_epoch_committee_count(&self, relative_epoch: crate::relative_epoch::RelativeEpoch, spec: &ChainSpec) -> (r:
        Result<u64, Error>)
        requires
            self.wf(spec),
        ensures
            ({
                let i = relative_epoch.cache_index_spec();
                let e = self.relative_epoch_abs(relative_epoch, spec);
                let c = self.committee_caches@[i];
                if c.initialized_epoch == Some(e) {
                    r == Ok::<u64, Error>((c.committees_per_slot * c.slots_per_epoch) as u64)
                } else {
                    r == Err::<u64, Error>(
                        Error::CommitteeCacheUninitialized(Some(relative_epoch)),
                    )
                }
            }),
    {
        let cache = match self.committee_cache(relative_epoch, spec) {
            Ok(c) => c,
            Err(e) => {
                return Err(e);
            },
        };
        proof {
            vstd::arithmetic::mul::lemma_mul_upper_bound(
                cache.committees_per_slot as int,
                0x10000,
                cache.slots_per_epoch as int,
                0x10000,
            );
        }
        Ok(cache.epoch_committee_count() as u64)
    }

    /// The cached active validator indices of `relative_epoch`, in
    /// shuffled order.
    pub fn get_cached_active_validator_indices(&self, relative_epoch: crate::relative_epoch::RelativeEpoch, spec: &ChainSpec) -> (r:
        Result<&Vec<usize>, Error>)
        requires
            self.wf(spec),
        ensures
            ({
                let i = relative_epoch.cache_index_spec();
                let e = self.relative_epoch_abs(relative_epoch, spec);
                let c = self.committee_caches@[i];
                if c.initialized_epoch == Some(e) {
                    r matches Ok(v) && v@ == c.shuffling@
                } else {
                    r == Err::<&Vec<usize>, Error>(
                        Error::CommitteeCacheUninitialized(Some(relative_epoch)),
                    )
                }
            }),
    {
        let cache = match self.committee_cache(relative_epoch, spec) {
            Ok(c) => c,
            Err(e) => {
                return Err(e);
            },
        };
        Ok(cache.active_validator_indices())
    }

    /// The cached shuffling of `relative_epoch`.
    pub fn get_shuffling(&self, relative_epoch: crate::relative_epoch::RelativeEpoch, spec: &ChainSpec) -> (r: Result<
        &Vec<usize>,
        Error,
    >)
        requires
            self.wf(spec),
        ensures
            ({
                let i = relative_epoch.cache_index_spec();
                let e = self.relative_epoch_abs(relative_epoch, spec);
                let c = self.committee_caches@[i];
                if c.initialized_epoch == Some(e) {
                    r matches Ok(v) && v@ == c.shuffling@
                } else {
                    r == Err::<&Vec<usize>, Error>(
                        Error::CommitteeCacheUninitialized(Some(relative_epoch)),
                    )
                }
            }),
    {
        let cache = match self.committee_cache(relative_epoch, spec) {
            Ok(c) => c,
            Err(e) => {
                return Err(e);
            },
        };
        Ok(cache.shuffling())
    }

    /// Get the committee of index `index` at `slot`, from the cache of
    /// the slot's epoch.
    pub fn get_beacon_committee(&self, slot: u64, index: u64, spec: &ChainSpec) -> (r: Result<
        crate::types::BeaconCommittee,
        Error,
    >)
        requires
            self.wf(spec),
        ensures
            ({
                let epoch = Self::epoch_of_slot_spec(slot, spec);
                let current = self.current_epoch_spec(spec);
                match crate::relative_epoch::RelativeEpoch::from_epoch_spec(current, epoch) {
                    Ok(rel) => {
                        let c = self.committee_caches@[rel.cache_index_spec()];
                        if c.initialized_epoch != Some(epoch) {
                            r == Err::<crate::types::BeaconCommittee, Error>(
                                Error::CommitteeCacheUninitialized(Some(rel)),
                            )
                        } else if slot / c.slots_per_epoch == epoch && index
                            < c.committees_per_slot {
                            let iie = (slot % c.slots_per_epoch) * c.committees_per_slot + index;
                            r matches Ok(bc) && bc.slot == slot && bc.index == index
                                && bc.committee@ == c.shuffling@.subrange(
                                c.committee_start(iie as nat) as int,
                                c.committee_start((iie + 1) as nat) as int,
                            ) && c.committee_start(iie as nat) <= c.committee_start(
                                (iie + 1) as nat,
                            ) <= c.shuffling@.len()
                        } else {
                            r == Err::<crate::types::BeaconCommittee, Error>(
                                Error::NoCommittee { slot, index },
                            )
                        }
                    },
                    Err(e) => r == Err::<crate::types::BeaconCommittee, Error>(
                        Error::RelativeEpochError(e),
                    ),
                }
            }),
    {
        let cache = match self.committee_cache_at_slot(slot, spec) {
            Ok(c) => c,
            Err(e) => {
                return Err(e);
            },
        };
        match cache.get_beacon_committee(slot, index) {
            Some(committee) => Ok(committee),
            None => Err(Error::NoCommittee { slot, index }),
        }
    }

    /// All committees of `slot`, from the cache of the slot's epoch.
    pub fn get_beacon_committees_at_slot(&self, slot: u64, spec: &ChainSpec) -> (r: Result<
        Vec<crate::types::BeaconCommittee>,
        Error,
    >)
        requires
            self.wf(spec),
        ensures
            ({
                let epoch = Self::epoch_of_slot_spec(slot, spec);
                let current = self.current_epoch_spec(spec);
                match crate::relative_epoch::RelativeEpoch::from_epoch_spec(current, epoch) {
                    Ok(rel) => {
                        let c = self.committee_caches@[rel.cache_index_spec()];
                        if c.initialized_epoch != Some(epoch) {
                            r == Err::<Vec<crate::types::BeaconCommittee>, Error>(
                                Error::CommitteeCacheUninitialized(Some(rel)),
                            )
                        } else if slot / c.slots_per_epoch == epoch {
                            r matches Ok(v) && v@.len() == c.committees_per_slot && forall|i: nat|
                                i < v@.len() ==> {
                                    let iie = (slot % c.slots_per_epoch) * c.committees_per_slot
                                        + i;
                                    let bc = #[trigger] v@[i as int];
                                    &&& bc.slot == slot
                                    &&& bc.index == i
                                    &&& bc.committee@ == c.shuffling@.subrange(
                                        c.committee_start(iie as nat) as int,
                                        c.committee_start((iie + 1) as nat) as int,
                                    )
                                }
                        } else {
                            r == Err::<Vec<crate::types::BeaconCommittee>, Error>(
                                Error::NoCommittee { slot, index: 0 },
                            )
                        }
                    },
                    Err(e) => r == Err::<Vec<crate::types::BeaconCommittee>, Error>(
                        Error::RelativeEpochError(e),
                    ),
                }
            }),
    {
        let cache = match self.committee_cache_at_slot(slot, spec) {
            Ok(c) => c,
            Err(e) => {
                return Err(e);
            },
        };
        cache.get_beacon_committees_at_slot(slot)
    }

    /// All committees of the epoch that `relative_epoch` names.
    pub fn get_beacon_committees_at_epoch(&self, relative_epoch: crate::relative_epoch::RelativeEpoch, spec: &ChainSpec) -> (r:
        Result<Vec<crate::types::BeaconCommittee>, Error>)
        requires
            self.wf(spec),
        ensures
            r matches Ok(v) ==> ({
                let i = relative_epoch.cache_index_spec();
                let e = self.relative_epoch_abs(relative_epoch, spec);
                let c = self.committee_caches@[i];
                &&& c.initialized_epoch == Some(e)
                &&& v@.len() == c.epoch_committee_count_spec()
                &&& forall|k: nat| k < v@.len() ==> c.committee_entry_ok(e, k, #[trigger] v@[k as int])
            }),
            ({
                let i = relative_epoch.cache_index_spec();
                let e = self.relative_epoch_abs(relative_epoch, spec);
                let c = self.committee_caches@[i];
                &&& (c.initialized_epoch == Some(e) ==> r is Ok)
                &&& (c.initialized_epoch != Some(e) ==> r == Err::<
                    Vec<crate::types::BeaconCommittee>,
                    Error,
                >(Error::CommitteeCacheUninitialized(Some(relative_epoch))))
            }),
    {
        let cache = match self.committee_cache(relative_epoch, spec) {
            Ok(c) => c,
            Err(e) => {
                return Err(e);
            },
        };
        cache.get_all_beacon_committees()
    }

    /// The attestation duty of one validator in the epoch that
    /// `relative_epoch` names: no duty when the validator is not in that
    /// epoch's active set.
    pub fn get_attestation_duties(
        &self,
        validator_index: usize,
        relative_epoch: crate::relative_epoch::RelativeEpoch,
        spec: &ChainSpec,
    ) -> (r: Result<Option<crate::types::AttestationDuty>, Error>)
        requires
            self.wf(spec),
        ensures
            ({
                let i = relative_epoch.cache_index_spec();
                let e = self.relative_epoch_abs(relative_epoch, spec);
                let c = self.committee_caches@[i];
                if c.initialized_epoch == Some(e) {
                    r matches Ok(o) && (o is Some <==> (validator_index
                        < c.shuffling_positions@.len()
                        && c.shuffling_positions@[validator_index as int] is Some)) && (
                    o matches Some(d) ==> (c.shuffling_positions@[validator_index as int]
                        matches Some(pos) && c.duty_for_position_ok(pos as nat, d)))
                } else {
                    r == Err::<Option<crate::types::AttestationDuty>, Error>(
                        Error::CommitteeCacheUninitialized(Some(relative_epoch)),
                    )
                }
            }),
    {
        let cache = match self.committee_cache(relative_epoch, spec) {
            Ok(c) => c,
            Err(e) => {
                return Err(e);
            },
        };
        Ok(cache.get_attestation_duties(validator_index))
    }

    /// The epoch at which an activation or exit triggered in `epoch`
    /// takes effect.
    pub fn compute_activation_exit_epoch(&self, epoch: u64, spec: &ChainSpec) -> (r: Result<
        u64,
        Error,
    >)
        ensures
            epoch + 1 + spec.max_seed_lookahead <= u64::MAX ==> r == Ok::<u64, Error>(
                (epoch + 1 + spec.max_seed_lookahead) as u64,
            ),
            epoch + 1 + spec.max_seed_lookahead > u64::MAX ==> r == Err::<u64, Error>(
                Error::ArithError(ArithError::Overflow),
            ),
    {
        match spec.compute_activation_exit_epoch(epoch) {
            Ok(e) => Ok(e),
            Err(e) => Err(Error::ArithError(e)),
        }
    }

    /// The validators active at `epoch`, in ascending registry order:
    /// `epoch` must lie before the activation horizon of the current
    /// epoch, past which the active set is not yet settled.
    pub fn get_active_validator_indices(&self, epoch: u64, spec: &ChainSpec) -> (r: Result<
        Vec<usize>,
        Error,
    >)
        requires
            self.wf(spec),
        ensures
            ({
                let current = self.current_epoch_spec(spec);
                let horizon = current + 1 + spec.max_seed_lookahead;
                if horizon > u64::MAX {
                    r == Err::<Vec<usize>, Error>(Error::ArithError(ArithError::Overflow))
                } else if epoch >= horizon {
                    r == Err::<Vec<usize>, Error>(Error::EpochOutOfBounds)
                } else {
                    r matches Ok(v) && v@ == crate::committee_cache::active_indices_spec(
                        self.validators@,
                        epoch,
                    )
                }
            }),
            r matches Ok(v) ==> {
                &&& v@ == crate::committee_cache::active_indices_spec(self.validators@, epoch)
                &&& forall|j: int| 0 <= j < v@.len() ==> (#[trigger] v@[j]) < self.validators@.len()
                    && self.validators@[v@[j] as int].is_active_at_spec(epoch)
                &&& forall|i: int| 0 <= i < self.validators@.len()
                    && self.validators@[i].is_active_at_spec(epoch) ==> v@.contains(i as usize)
                &&& forall|j: int, l: int| 0 <= j < l < v@.len() ==> v@[j] < v@[l]
            },
    {
        let current = self.current_epoch(spec);
        let horizon = match self.compute_activation_exit_epoch(current, spec) {
            Ok(h) => h,
            Err(e) => {
                return Err(e);
            },
        };
        if epoch >= horizon {
            Err(Error::EpochOutOfBounds)
        } else {
            Ok(crate::committee_cache::get_active_validator_indices(&self.validators, epoch))
        }
    }

    /// The slot whose block root keys the current epoch's proposer
    /// shuffling: the last slot before the epoch began.
    fn proposer_shuffling_decision_slot(&self, spec: &ChainSpec) -> (r: u64)
        requires
            self.wf(spec),
        ensures
            ({
                let start = self.current_epoch_spec(spec) * spec.slots_per_epoch;
                r == if start > 0 {
                    start - 1
                } else {
                    0int
                }
            }),
    {
        proof {
            lemma_epoch_start_fits(self.slot, spec.slots_per_epoch);
        }
        let start = self.current_epoch(spec) * spec.slots_per_epoch;
        if start > 0 {
            start - 1
        } else {
            0
        }
    }

    /// The block root that keyed the current epoch's proposer shuffling:
    /// the caller's `block_root` when the state sits exactly on the
    /// decision slot, else the buffered root of that slot.
    pub fn proposer_shuffling_decision_root(&self, block_root: Hash256, spec: &ChainSpec) -> (r:
        Result<Hash256, Error>)
        requires
            self.wf(spec),
        ensures
            ({
                let start = self.current_epoch_spec(spec) * spec.slots_per_epoch;
                let decision = if start > 0 {
                    (start - 1) as u64
                } else {
                    0u64
                };
                if self.slot == decision {
                    r matches Ok(root) && root@ == block_root@
                } else {
                    (r matches Ok(root) ==> root@ == self.block_roots@[decision as int
                        % self.block_roots@.len() as int]@) && (r is Ok <==> (
                    self.root_window_ok(decision, self.block_roots@.len()) && decision
                        + self.block_roots@.len() <= u64::MAX))
                }
            }),
    {
        let decision_slot = self.proposer_shuffling_decision_slot(spec);
        if self.slot == decision_slot {
            Ok(block_root)
        } else {
            match self.get_block_root(decision_slot) {
                Ok(root) => Ok(root.copied()),
                Err(e) => Err(e),
            }
        }
    }

    /// The epoch whose last preceding slot keys the attester shuffling
    /// of `relative_epoch`.
    pub open spec fn attester_decision_epoch_spec(&self, relative_epoch: crate::relative_epoch::RelativeEpoch, spec: &ChainSpec) -> u64 {
        match relative_epoch {
            crate::relative_epoch::RelativeEpoch::Next => self.current_epoch_spec(spec),
            crate::relative_epoch::RelativeEpoch::Current => self.previous_epoch_spec(spec),
            crate::relative_epoch::RelativeEpoch::Previous => if self.previous_epoch_spec(spec)
                > 0 {
                (self.previous_epoch_spec(spec) - 1) as u64
            } else {
                0u64
            },
        }
    }

    /// The slot whose block root keys the attester shuffling of
    /// `relative_epoch`: the last slot before the shuffling's decision
    /// epoch began.
    fn attester_shuffling_decision_slot(&self, relative_epoch: crate::relative_epoch::RelativeEpoch, spec: &ChainSpec) -> (r:
        u64)
        requires
            self.wf(spec),
        ensures
            ({
                let e = self.attester_decision_epoch_spec(relative_epoch, spec);
                let start = e * spec.slots_per_epoch;
                r == if start > 0 {
                    start - 1
                } else {
                    0int
                }
            }),
    {
        let e = match relative_epoch {
            crate::relative_epoch::RelativeEpoch::Next => self.current_epoch(spec),
            crate::relative_epoch::RelativeEpoch::Current => self.previous_epoch(spec),
            crate::relative_epoch::RelativeEpoch::Previous => {
                let prev = self.previous_epoch(spec);
                if prev > 0 {
                    prev - 1
                } else {
                    0
                }
            },
        };
        proof {
            lemma_epoch_start_fits(self.slot, spec.slots_per_epoch);
            vstd::arithmetic::mul::lemma_mul_inequality(
                e as int,
                self.current_epoch_spec(spec) as int,
                spec.slots_per_epoch as int,
            );
            vstd::arithmetic::mul::lemma_mul_is_commutative(e as int, spec.slots_per_epoch as int);
            vstd::arithmetic::mul::lemma_mul_is_commutative(
                self.current_epoch_spec(spec) as int,
                spec.slots_per_epoch as int,
            );
        }
        let start = e * spec.slots_per_epoch;
        if start > 0 {
            start - 1
        } else {
            0
        }
    }

    /// The block root that keyed the attester shuffling of
    /// `relative_epoch`.
    pub fn attester_shuffling_decision_root(
        &self,
        block_root: Hash256,
        relative_epoch: crate::relative_epoch::RelativeEpoch,
        spec: &ChainSpec,
    ) -> (r: Result<Hash256, Error>)
        requires
            self.wf(spec),
        ensures
            ({
                let e = self.attester_decision_epoch_spec(relative_epoch, spec);
                let start = e * spec.slots_per_epoch;
                let decision = if start > 0 {
                    (start - 1) as u64
                } else {
                    0u64
                };
                if self.slot == decision {
                    r matches Ok(root) && root@ == block_root@
                } else {
                    (r matches Ok(root) ==> root@ == self.block_roots@[decision as int
                        % self.block_roots@.len() as int]@) && (r is Ok <==> (
                    self.root_window_ok(decision, self.block_roots@.len()) && decision
                        + self.block_roots@.len() <= u64::MAX))
                }
            }),
    {
        let decision_slot = self.attester_shuffling_decision_slot(relative_epoch, spec);
        if self.slot == decision_slot {
            Ok(block_root)
        } else {
            match self.get_block_root(decision_slot) {
                Ok(root) => Ok(root.copied()),
                Err(e) => Err(e),
            }
        }
    }

    /// Whether `val` counts for rewards and penalties of the epoch before
    /// `previous_epoch + 1`: active then, or slashed and not yet
    /// withdrawable an epoch later.
    pub fn is_eligible_validator(&self, previous_epoch: u64, val: &Validator) -> (r: Result<
        bool,
        Error,
    >)
        requires
            previous_epoch < u64::MAX,
        ensures
            r == Ok::<bool, Error>(
                val.is_active_at_spec(previous_epoch) || (val.slashed && previous_epoch + 1
                    < val.withdrawable_epoch),
            ),
    {
        if val.is_active_at(previous_epoch) {
            Ok(true)
        } else {
            Ok(val.slashed() && previous_epoch + 1 < val.withdrawable_epoch())
        }
    }

    /// Whether finality has stalled long enough to put the chain in an
    /// inactivity leak at `previous_epoch`.
    pub fn is_in_inactivity_leak(&self, previous_epoch: u64, spec: &ChainSpec) -> (r: Result<
        bool,
        ArithError,
    >)
        ensures
            previous_epoch >= self.finalized_checkpoint.epoch ==> r == Ok::<bool, ArithError>(
                previous_epoch - self.finalized_checkpoint.epoch
                    > spec.min_epochs_to_inactivity_penalty,
            ),
            previous_epoch < self.finalized_checkpoint.epoch ==> r == Err::<bool, ArithError>(
                ArithError::Overflow,
            ),
    {
        if previous_epoch < self.finalized_checkpoint.epoch {
            Err(ArithError::Overflow)
        } else {
            Ok((previous_epoch - self.finalized_checkpoint.epoch)
                > spec.min_epochs_to_inactivity_penalty)
        }
    }
}

impl BeaconState {
    /// Every slot of the current epoch has a computable proposer.
    pub open spec fn all_epoch_proposers_ok(&self, spec: &ChainSpec) -> bool {
        forall|k: int|
            0 <= k < spec.slots_per_epoch ==> (#[trigger] self.beacon_proposer_result(
                (self.current_epoch_spec(spec) * spec.slots_per_epoch + k) as u64,
                spec,
            )) is Ok
    }
}

/// Whether `key` stands somewhere in `cache`.
pub open spec fn key_found(cache: Seq<Seq<u8>>, key: Seq<u8>) -> bool {
    exists|i: int| 0 <= i < cache.len() && #[trigger] cache[i] == key
}

/// Every key of `keys` appears somewhere in `cache`.
pub open spec fn keys_all_cached(cache: Seq<Seq<u8>>, keys: Seq<Seq<u8>>) -> bool {
    forall|k: int| 0 <= k < keys.len() ==> key_found(cache, #[trigger] keys[k])
}

/// The build-success conditions of a cache slot depend only on the
/// slot's own cache entry, the registry, the state's slot and the
/// total-balance cell: two states agreeing on those agree on the
/// conditions.
proof fn lemma_build_conditions_carry(a: &BeaconState, b: &BeaconState, spec: &ChainSpec)
    requires
        a.validators@ == b.validators@,
        a.slot == b.slot,
    ensures
        forall|rel: crate::relative_epoch::RelativeEpoch|
            a.committee_caches@[#[trigger] rel.cache_index_spec()] == b.committee_caches@[rel.cache_index_spec()]
                ==> a.committee_cache_build_ok(rel, spec) == b.committee_cache_build_ok(rel, spec),
        a.total_active_balance is Some == b.total_active_balance is Some
            ==> a.total_balance_build_ok(spec) == b.total_balance_build_ok(spec),
{
}

/// A slot whose proposer computation fails refutes the claim that every
/// slot of the epoch succeeds.
proof fn lemma_not_all_slots_ok(s: &BeaconState, spec: &ChainSpec, k: int, e: Error)
    requires
        0 <= k < spec.slots_per_epoch,
        s.beacon_proposer_result(
            (s.current_epoch_spec(spec) * spec.slots_per_epoch + k) as u64,
            spec,
        ) == Err::<usize, Error>(e),
    ensures
        !s.all_epoch_proposers_ok(spec),
        exists|k2: int|
            0 <= k2 < spec.slots_per_epoch && #[trigger] s.beacon_proposer_result(
                (s.current_epoch_spec(spec) * spec.slots_per_epoch + k2) as u64,
                spec,
            ) == Err::<usize, Error>(e),
{
    assert(s.beacon_proposer_result(
        (s.current_epoch_spec(spec) * spec.slots_per_epoch + k) as u64,
        spec,
    ) == Err::<usize, Error>(e));
}

/// An epoch's first slot never exceeds any slot inside the epoch.
proof fn lemma_epoch_start_fits(slot: u64, spe: u64)
    requires
        spe > 0,
    ensures
        (slot / spe) * spe <= slot,
{
    vstd::arithmetic::div_mod::lemma_fundamental_div_mod(slot as int, spe as int);
    vstd::arithmetic::mul::lemma_mul_is_commutative(slot as int / spe as int, spe as int);
}


/// The largest random byte, as a scaling factor for acceptance tests.
pub const MAX_RANDOM_BYTE: u64 = 255;

/// The preimage whose digest supplies candidate `i`'s random byte: the
/// seed followed by the eight-byte block counter.
pub open spec fn random_byte_input_spec(seed: Seq<u8>, i: nat) -> Seq<u8> {
    seed + int_to_bytes_spec((i / 32) as u64, 8)
}

/// The random byte of candidate `i` under `seed`.
pub open spec fn random_byte_spec(seed: Seq<u8>, i: nat) -> u8 {
    hash32_of(random_byte_input_spec(seed, i))[(i % 32) as int]
}

/// One step of proposer rejection sampling from candidate `i` on, with
/// `fuel` candidates left before the candidate counter overflows.
pub open spec fn proposer_index_from(
    vals: Seq<Validator>,
    indices: Seq<usize>,
    seed: Seq<u8>,
    spec: &ChainSpec,
    i: nat,
    fuel: nat,
) -> Result<usize, Error>
    decreases fuel,
{
    if fuel == 0 {
        Err(Error::ArithError(ArithError::Overflow))
    } else {
        let shuffled = crate::shuffle::shuffled_index_spec(
            i % indices.len(),
            indices.len(),
            seed,
            spec.shuffle_round_count,
        );
        let candidate = indices[shuffled as int];
        if candidate >= vals.len() {
            Err(Error::UnknownValidator(candidate as usize))
        } else {
            let byte = random_byte_spec(seed, i);
            let eb = vals[candidate as int].effective_balance;
            if eb * MAX_RANDOM_BYTE > u64::MAX {
                Err(Error::ArithError(ArithError::Overflow))
            } else if spec.max_effective_balance * byte > u64::MAX {
                Err(Error::ArithError(ArithError::Overflow))
            } else if eb * MAX_RANDOM_BYTE >= spec.max_effective_balance * byte {
                Ok(candidate as usize)
            } else {
                proposer_index_from(vals, indices, seed, spec, i + 1, (fuel - 1) as nat)
            }
        }
    }
}

/// The proposer that rejection sampling selects from `indices` under
/// `seed`: the first shuffled candidate whose effective balance passes
/// the random-byte test.
pub open spec fn compute_proposer_index_spec(
    vals: Seq<Validator>,
    indices: Seq<usize>,
    seed: Seq<u8>,
    spec: &ChainSpec,
) -> Result<usize, Error> {
    if indices.len() == 0 {
        Err(Error::InsufficientValidators)
    } else if indices.len() > MAX_SHUFFLE_LIST_SIZE || indices.len() > usize::MAX / 2 {
        Err(Error::UnableToShuffle)
    } else {
        proposer_index_from(vals, indices, seed, spec, 0, (usize::MAX + 1) as nat)
    }
}

impl BeaconState {
    /// Computes the random byte of candidate `i` under `seed`.
    fn shuffling_random_byte(i: usize, seed: &Vec<u8>) -> (r: u8)
        ensures
            r == random_byte_spec(seed@, i as nat),
    {
        let mut preimage = crate::validator::copy_bytes(seed);
        let block_bytes = int_to_bytes8((i / 32) as u64);
        append_bytes(&mut preimage, &block_bytes);
        proof {
            assert(preimage@ =~= random_byte_input_spec(seed@, i as nat));
        }
        let digest = hash32(&preimage);
        *digest.get(i % 32).unwrap()
    }

    /// Selects the proposer from `indices` under `seed` by rejection
    /// sampling: deterministic for fixed inputs, with no artificial cap
    /// on the candidate counter short of its machine limit.
    pub fn compute_proposer_index(&self, indices: &Vec<usize>, seed: &Vec<u8>, spec: &ChainSpec) -> (r:
        Result<usize, Error>)
        ensures
            r == compute_proposer_index_spec(self.validators@, indices@, seed@, spec),
    {
        if indices.len() == 0 {
            return Err(Error::InsufficientValidators);
        }
        let n = indices.len();
        if n > MAX_SHUFFLE_LIST_SIZE || n > usize::MAX / 2 {
            return Err(Error::UnableToShuffle);
        }
        let mut i: usize = 0;
        loop
            invariant
                n == indices@.len(),
                0 < n <= MAX_SHUFFLE_LIST_SIZE,
                n <= usize::MAX / 2,
                compute_proposer_index_spec(self.validators@, indices@, seed@, spec)
                    == proposer_index_from(
                    self.validators@,
                    indices@,
                    seed@,
                    spec,
                    i as nat,
                    (usize::MAX + 1 - i) as nat,
                ),
            decreases usize::MAX - i,
        {
            let ghost fuel = (usize::MAX + 1 - i) as nat;
            let shuffled = match crate::shuffle::compute_shuffled_index(
                i % n,
                n,
                seed,
                spec.shuffle_round_count,
            ) {
                Some(s) => s,
                None => {
                    proof {
                        assert(false);
                    }
                    return Err(Error::UnableToShuffle);
                },
            };
            proof {
                assert(shuffled as nat == crate::shuffle::shuffled_index_spec(
                    i as nat % indices@.len(),
                    indices@.len(),
                    seed@,
                    spec.shuffle_round_count,
                ));
            }
            let candidate = *indices.get(shuffled).unwrap();
            if candidate >= self.validators.len() {
                proof {
                    assert(proposer_index_from(self.validators@, indices@, seed@, spec, i as nat, fuel)
                        == Err::<usize, Error>(Error::UnknownValidator(candidate)));
                }
                return Err(Error::UnknownValidator(candidate));
            }
            let random_byte = Self::shuffling_random_byte(i, seed);
            let effective_balance = self.validators.get(candidate).unwrap().effective_balance();
            let lhs = match effective_balance.checked_mul(MAX_RANDOM_BYTE) {
                Some(v) => v,
                None => {
                    proof {
                        assert(proposer_index_from(
                            self.validators@,
                            indices@,
                            seed@,
                            spec,
                            i as nat,
                            fuel,
                        ) == Err::<usize, Error>(Error::ArithError(ArithError::Overflow)));
                    }
                    return Err(Error::ArithError(ArithError::Overflow));
                },
            };
            let rhs = match spec.max_effective_balance.checked_mul(random_byte as u64) {
                Some(v) => v,
                None => {
                    proof {
                        assert(proposer_index_from(
                            self.validators@,
                            indices@,
                            seed@,
                            spec,
                            i as nat,
                            fuel,
                        ) == Err::<usize, Error>(Error::ArithError(ArithError::Overflow)));
                    }
                    return Err(Error::ArithError(ArithError::Overflow));
                },
            };
            if lhs >= rhs {
                proof {
                    assert(proposer_index_from(self.validators@, indices@, seed@, spec, i as nat, fuel)
                        == Ok::<usize, Error>(candidate));
                }
                return Ok(candidate);
            }
            if i == usize::MAX {
                proof {
                    assert(proposer_index_from(self.validators@, indices@, seed@, spec, i as nat, fuel)
                        == proposer_index_from(
                        self.validators@,
                        indices@,
                        seed@,
                        spec,
                        (i + 1) as nat,
                        (fuel - 1) as nat,
                    ));
                    assert(proposer_index_from(
                        self.validators@,
                        indices@,
                        seed@,
                        spec,
                        (i + 1) as nat,
                        0,
                    ) == Err::<usize, Error>(Error::ArithError(ArithError::Overflow)));
                }
                return Err(Error::ArithError(ArithError::Overflow));
            }
            proof {
                assert(proposer_index_from(self.validators@, indices@, seed@, spec, i as nat, fuel)
                    == proposer_index_from(
                    self.validators@,
                    indices@,
                    seed@,
                    spec,
                    (i + 1) as nat,
                    (fuel - 1) as nat,
                ));
            }
            i = i + 1;
        }
    }

    /// The preimage of the proposer seed of `slot`: the epoch's
    /// proposer-domain seed followed by the eight slot bytes.
    pub open spec fn proposer_seed_input_spec(&self, slot: u64, spec: &ChainSpec) -> Seq<u8> {
        hash32_of(
            self.seed_input_spec(Self::epoch_of_slot_spec(slot, spec), Domain::BeaconProposer, spec),
        ) + int_to_bytes_spec(slot, 8)
    }

    /// Compute the seed of the proposer selection at `slot`.
    pub fn get_beacon_proposer_seed(&self, slot: u64, spec: &ChainSpec) -> (r: Result<
        Vec<u8>,
        Error,
    >)
        requires
            self.wf(spec),
        ensures
            r is Ok <==> Self::seed_arith_ok(Self::epoch_of_slot_spec(slot, spec), spec),
            r matches Ok(v) ==> v@ == hash32_of(self.proposer_seed_input_spec(slot, spec)),
            !Self::seed_arith_ok(Self::epoch_of_slot_spec(slot, spec), spec) ==> r == Err::<
                Vec<u8>,
                Error,
            >(Error::ArithError(ArithError::Overflow)),
    {
        let epoch = slot / spec.slots_per_epoch;
        let seed = match self.get_seed(epoch, Domain::BeaconProposer, spec) {
            Ok(h) => h,
            Err(e) => {
                return Err(e);
            },
        };
        let mut preimage = seed.bytes;
        let slot_bytes = int_to_bytes8(slot);
        append_bytes(&mut preimage, &slot_bytes);
        proof {
            assert(preimage@ =~= self.proposer_seed_input_spec(slot, spec));
        }
        Ok(hash32(&preimage))
    }

    /// What the proposer lookup of `slot` returns on this state: the slot
    /// must lie in the current epoch, whose active set and seed decide
    /// the sampling.
    pub open spec fn beacon_proposer_result(&self, slot: u64, spec: &ChainSpec) -> Result<
        usize,
        Error,
    > {
        let epoch = Self::epoch_of_slot_spec(slot, spec);
        let current = self.current_epoch_spec(spec);
        let horizon = current + 1 + spec.max_seed_lookahead;
        if epoch != current {
            Err(Error::SlotOutOfBounds)
        } else if !Self::seed_arith_ok(epoch, spec) {
            Err(Error::ArithError(ArithError::Overflow))
        } else if horizon > u64::MAX {
            Err(Error::ArithError(ArithError::Overflow))
        } else {
            compute_proposer_index_spec(
                self.validators@,
                crate::committee_cache::active_indices_spec(self.validators@, epoch),
                hash32_of(self.proposer_seed_input_spec(slot, spec)),
                spec,
            )
        }
    }

    /// Returns the proposer of `slot`, which must lie in the current
    /// epoch: proposer identity depends on effective balances, which are
    /// settled only for the current epoch.
    pub fn get_beacon_proposer_index(&self, slot: u64, spec: &ChainSpec) -> (r: Result<
        usize,
        Error,
    >)
        requires
            self.wf(spec),
        ensures
            r == self.beacon_proposer_result(slot, spec),
    {
        let epoch = slot / spec.slots_per_epoch;
        if epoch != self.current_epoch(spec) {
            return Err(Error::SlotOutOfBounds);
        }
        let seed = match self.get_beacon_proposer_seed(slot, spec) {
            Ok(v) => v,
            Err(e) => {
                return Err(e);
            },
        };
        let indices = match self.get_active_validator_indices(epoch, spec) {
            Ok(v) => v,
            Err(e) => {
                return Err(e);
            },
        };
        self.compute_proposer_index(&indices, &seed, spec)
    }

    /// Returns one proposer per slot of the current epoch, first slot
    /// first.
    pub fn get_beacon_proposer_indices(&self, spec: &ChainSpec) -> (r: Result<Vec<usize>, Error>)
        requires
            self.wf(spec),
            self.current_epoch_spec(spec) * spec.slots_per_epoch + spec.slots_per_epoch
                <= u64::MAX,
        ensures
            r matches Ok(v) ==> {
                &&& v@.len() == spec.slots_per_epoch
                &&& forall|k: int| 0 <= k < v@.len() ==> self.beacon_proposer_result(
                    (self.current_epoch_spec(spec) * spec.slots_per_epoch + k) as u64,
                    spec,
                ) == Ok::<usize, Error>(#[trigger] v@[k])
            },
            r is Ok <==> self.all_epoch_proposers_ok(spec),
            r matches Err(e) ==> exists|k: int|
                0 <= k < spec.slots_per_epoch && #[trigger] self.beacon_proposer_result(
                    (self.current_epoch_spec(spec) * spec.slots_per_epoch + k) as u64,
                    spec,
                ) == Err::<usize, Error>(e),
    {
        let current = self.current_epoch(spec);
        proof {
            lemma_epoch_start_fits(self.slot, spec.slots_per_epoch);
        }
        let start = current * spec.slots_per_epoch;
        let indices = match self.get_active_validator_indices(current, spec) {
            Ok(v) => v,
            Err(e) => {
                proof {
                    vstd::arithmetic::mul::lemma_mul_is_commutative(
                        current as int,
                        spec.slots_per_epoch as int,
                    );
                    vstd::arithmetic::div_mod::lemma_div_multiples_vanish_fancy(
                        current as int,
                        0,
                        spec.slots_per_epoch as int,
                    );
                    assert(Self::epoch_of_slot_spec(start, spec) == current);
                    assert(self.beacon_proposer_result((start + 0) as u64, spec) == Err::<
                        usize,
                        Error,
                    >(e));
                    lemma_not_all_slots_ok(self, spec, 0, e);
                }
                return Err(e);
            },
        };
        let mut out: Vec<usize> = Vec::new();
        let mut k: u64 = 0;
        while k < spec.slots_per_epoch
            invariant
                self.wf(spec),
                current == self.current_epoch_spec(spec),
                start == current * spec.slots_per_epoch,
                start + spec.slots_per_epoch <= u64::MAX,
                k <= spec.slots_per_epoch,
                out@.len() == k,
                indices@ == crate::committee_cache::active_indices_spec(self.validators@, current),
                self.current_epoch_spec(spec) + 1 + spec.max_seed_lookahead <= u64::MAX,
                forall|m: int| 0 <= m < out@.len() ==> self.beacon_proposer_result(
                    (current * spec.slots_per_epoch + m) as u64,
                    spec,
                ) == Ok::<usize, Error>(#[trigger] out@[m]),
            decreases spec.slots_per_epoch - k,
        {
            let slot = start + k;
            proof {
                vstd::arithmetic::mul::lemma_mul_is_commutative(
                    current as int,
                    spec.slots_per_epoch as int,
                );
                vstd::arithmetic::div_mod::lemma_div_multiples_vanish_fancy(
                    current as int,
                    k as int,
                    spec.slots_per_epoch as int,
                );
                assert(Self::epoch_of_slot_spec(slot, spec) == current);
            }
            let seed = match self.get_beacon_proposer_seed(slot, spec) {
                Ok(v) => v,
                Err(e) => {
                    proof {
                        assert(self.beacon_proposer_result(slot, spec) == Err::<usize, Error>(e));
                        assert(slot == current * spec.slots_per_epoch + k);
                        lemma_not_all_slots_ok(self, spec, k as int, e);
                    }
                    return Err(e);
                },
            };
            let proposer = match self.compute_proposer_index(&indices, &seed, spec) {
                Ok(p) => p,
                Err(e) => {
                    proof {
                        assert(self.beacon_proposer_result(slot, spec) == Err::<usize, Error>(e));
                        assert(slot == current * spec.slots_per_epoch + k);
                        lemma_not_all_slots_ok(self, spec, k as int, e);
                    }
                    return Err(e);
                },
            };
            out.push(proposer);
            k = k + 1;
        }
        proof {
            assert forall|k2: int|
                0 <= k2 < spec.slots_per_epoch implies (#[trigger] self.beacon_proposer_result(
                    (self.current_epoch_spec(spec) * spec.slots_per_epoch + k2) as u64,
                    spec,
                )) is Ok by {
                assert(self.beacon_proposer_result(
                    (current * spec.slots_per_epoch + k2) as u64,
                    spec,
                ) == Ok::<usize, Error>(out@[k2]));
            }
        }
        Ok(out)
    }
}


/// One step of sync-committee rejection sampling from candidate `i` on,
/// with `acc` members already accepted and `fuel` candidates left before
/// the counter overflows. Duplicate acceptances are legal and expected.
pub open spec fn sync_indices_from(
    vals: Seq<Validator>,
    active: Seq<usize>,
    seed: Seq<u8>,
    spec: &ChainSpec,
    i: nat,
    fuel: nat,
    acc: Seq<usize>,
) -> Result<Seq<usize>, Error>
    decreases fuel,
{
    if acc.len() >= spec.sync_committee_size {
        Ok(acc)
    } else if fuel == 0 {
        Err(Error::ArithError(ArithError::Overflow))
    } else {
        let shuffled = crate::shuffle::shuffled_index_spec(
            i % active.len(),
            active.len(),
            seed,
            spec.shuffle_round_count,
        );
        let candidate = active[shuffled as int];
        if candidate >= vals.len() {
            Err(Error::UnknownValidator(candidate as usize))
        } else {
            let byte = random_byte_spec(seed, i);
            let eb = vals[candidate as int].effective_balance;
            if eb * MAX_RANDOM_BYTE > u64::MAX {
                Err(Error::ArithError(ArithError::Overflow))
            } else if spec.max_effective_balance * byte > u64::MAX {
                Err(Error::ArithError(ArithError::Overflow))
            } else if eb * MAX_RANDOM_BYTE >= spec.max_effective_balance * byte {
                sync_indices_from(vals, active, seed, spec, i + 1, (fuel - 1) as nat, acc.push(candidate))
            } else {
                sync_indices_from(vals, active, seed, spec, i + 1, (fuel - 1) as nat, acc)
            }
        }
    }
}

impl BeaconState {
    /// What the sync-committee sampling of the next epoch returns on this
    /// state.
    pub open spec fn next_sync_committee_indices_result(&self, spec: &ChainSpec) -> Result<
        Seq<usize>,
        Error,
    > {
        let current = self.current_epoch_spec(spec);
        let epoch = (current + 1) as u64;
        let horizon = current + 1 + spec.max_seed_lookahead;
        let active = crate::committee_cache::active_indices_spec(self.validators@, epoch);
        if current + 1 > u64::MAX {
            Err(Error::ArithError(ArithError::Overflow))
        } else if horizon > u64::MAX {
            Err(Error::ArithError(ArithError::Overflow))
        } else if current + 1 >= horizon {
            Err(Error::EpochOutOfBounds)
        } else if active.len() == 0 {
            Err(Error::ArithError(ArithError::DivisionByZero))
        } else if !Self::seed_arith_ok(epoch, spec) {
            Err(Error::ArithError(ArithError::Overflow))
        } else if active.len() > MAX_SHUFFLE_LIST_SIZE || active.len() > usize::MAX / 2 {
            Err(Error::UnableToShuffle)
        } else {
            sync_indices_from(
                self.validators@,
                active,
                hash32_of(self.seed_input_spec(epoch, Domain::SyncCommittee, spec)),
                spec,
                0,
                (usize::MAX + 1) as nat,
                Seq::empty(),
            )
        }
    }

    /// Samples the members of the next epoch's sync committee: the
    /// rejection loop of the proposer selection, run over the next
    /// epoch's active set until the fixed committee size is reached.
    pub fn get_next_sync_committee_indices(&self, spec: &ChainSpec) -> (r: Result<
        Vec<usize>,
        Error,
    >)
        requires
            self.wf(spec),
        ensures
            ({
                match self.next_sync_committee_indices_result(spec) {
                    Ok(idxs) => r matches Ok(v) && v@ == idxs,
                    Err(e) => r == Err::<Vec<usize>, Error>(e),
                }
            }),
    {
        let current = self.current_epoch(spec);
        let epoch = current + 1;
        let active = match self.get_active_validator_indices(epoch, spec) {
            Ok(v) => v,
            Err(e) => {
                return Err(e);
            },
        };
        let n = active.len();
        if n == 0 {
            return Err(Error::ArithError(ArithError::DivisionByZero));
        }
        let seed = match self.get_seed(epoch, Domain::SyncCommittee, spec) {
            Ok(h) => h,
            Err(e) => {
                return Err(e);
            },
        };
        if n > MAX_SHUFFLE_LIST_SIZE || n > usize::MAX / 2 {
            return Err(Error::UnableToShuffle);
        }
        let ghost gseed = hash32_of(self.seed_input_spec(epoch, Domain::SyncCommittee, spec));
        let mut out: Vec<usize> = Vec::new();
        let mut i: usize = 0;
        let size = spec.sync_committee_size as usize;
        loop
            invariant
                n == active@.len(),
                0 < n <= MAX_SHUFFLE_LIST_SIZE,
                n <= usize::MAX / 2,
                size == spec.sync_committee_size,
                spec.sync_committee_size <= usize::MAX,
                out@.len() <= size,
                seed@ == gseed,
                seed.wf(),
                self.next_sync_committee_indices_result(spec) == sync_indices_from(
                    self.validators@,
                    active@,
                    gseed,
                    spec,
                    i as nat,
                    (usize::MAX + 1 - i) as nat,
                    out@,
                ),
            decreases usize::MAX - i,
        {
            if out.len() >= size {
                return Ok(out);
            }
            let ghost fuel = (usize::MAX + 1 - i) as nat;
            let shuffled = match crate::shuffle::compute_shuffled_index(
                i % n,
                n,
                &seed.bytes,
                spec.shuffle_round_count,
            ) {
                Some(sx) => sx,
                None => {
                    proof {
                        assert(false);
                    }
                    return Err(Error::UnableToShuffle);
                },
            };
            proof {
                assert(shuffled as nat == crate::shuffle::shuffled_index_spec(
                    i as nat % active@.len(),
                    active@.len(),
                    gseed,
                    spec.shuffle_round_count,
                ));
            }
            let candidate = *active.get(shuffled).unwrap();
            if candidate >= self.validators.len() {
                proof {
                    assert(sync_indices_from(
                        self.validators@,
                        active@,
                        gseed,
                        spec,
                        i as nat,
                        fuel,
                        out@,
                    ) == Err::<Seq<usize>, Error>(Error::UnknownValidator(candidate)));
                }
                return Err(Error::UnknownValidator(candidate));
            }
            let random_byte = Self::shuffling_random_byte(i, &seed.bytes);
            let effective_balance = self.validators.get(candidate).unwrap().effective_balance();
            let lhs = match effective_balance.checked_mul(MAX_RANDOM_BYTE) {
                Some(v) => v,
                None => {
                    proof {
                        assert(sync_indices_from(
                            self.validators@,
                            active@,
                            gseed,
                            spec,
                            i as nat,
                            fuel,
                            out@,
                        ) == Err::<Seq<usize>, Error>(Error::ArithError(ArithError::Overflow)));
                    }
                    return Err(Error::ArithError(ArithError::Overflow));
                },
            };
            let rhs = match spec.max_effective_balance.checked_mul(random_byte as u64) {
                Some(v) => v,
                None => {
                    proof {
                        assert(sync_indices_from(
                            self.validators@,
                            active@,
                            gseed,
                            spec,
                            i as nat,
                            fuel,
                            out@,
                        ) == Err::<Seq<usize>, Error>(Error::ArithError(ArithError::Overflow)));
                    }
                    return Err(Error::ArithError(ArithError::Overflow));
                },
            };
            let ghost prev_out = out@;
            if lhs >= rhs {
                out.push(candidate);
            }
            if i == usize::MAX {
                proof {
                    if lhs >= rhs {
                        assert(sync_indices_from(
                            self.validators@,
                            active@,
                            gseed,
                            spec,
                            i as nat,
                            fuel,
                            prev_out,
                        ) == sync_indices_from(
                            self.validators@,
                            active@,
                            gseed,
                            spec,
                            (i + 1) as nat,
                            0,
                            out@,
                        ));
                    } else {
                        assert(sync_indices_from(
                            self.validators@,
                            active@,
                            gseed,
                            spec,
                            i as nat,
                            fuel,
                            prev_out,
                        ) == sync_indices_from(
                            self.validators@,
                            active@,
                            gseed,
                            spec,
                            (i + 1) as nat,
                            0,
                            out@,
                        ));
                    }
                }
                if out.len() >= size {
                    return Ok(out);
                }
                return Err(Error::ArithError(ArithError::Overflow));
            }
            i = i + 1;
        }
    }

    /// Computes the next epoch's sync committee. The aggregate of the
    /// member keys is the caller's aggregation primitive's work and is
    /// adopted as given.
    pub fn get_next_sync_committee(&self, spec: &ChainSpec, aggregate_pubkey: Vec<u8>) -> (r:
        Result<SyncCommittee, Error>)
        requires
            self.wf(spec),
        ensures
            r is Ok <==> self.next_sync_committee_indices_result(spec) is Ok,
            self.next_sync_committee_indices_result(spec) matches Err(e) ==> r == Err::<
                SyncCommittee,
                Error,
            >(e),
            r matches Ok(c) ==> (self.next_sync_committee_indices_result(spec) matches Ok(idxs)
                && c.pubkeys_view() == idxs.map_values(|i: usize| self.validators@[i as int].pubkey@)
                && c.aggregate_pubkey@ == aggregate_pubkey@),
    {
        let indices = match self.get_next_sync_committee_indices(spec) {
            Ok(v) => v,
            Err(e) => {
                return Err(e);
            },
        };
        proof {
            let current = self.current_epoch_spec(spec);
            let epoch = (current + 1) as u64;
            let active = crate::committee_cache::active_indices_spec(self.validators@, epoch);
            let gseed = hash32_of(self.seed_input_spec(epoch, Domain::SyncCommittee, spec));
            lemma_sync_indices_bounded(
                self.validators@,
                active,
                gseed,
                spec,
                0,
                (usize::MAX + 1) as nat,
                Seq::empty(),
            );
        }
        let mut pubkeys: Vec<Vec<u8>> = Vec::new();
        let mut k: usize = 0;
        while k < indices.len()
            invariant
                k <= indices@.len(),
                pubkeys@.len() == k,
                forall|j: int| 0 <= j < indices@.len() ==> (#[trigger] indices@[j])
                    < self.validators@.len(),
                forall|j: int| 0 <= j < k ==> (#[trigger] pubkeys@[j])@
                    == self.validators@[indices@[j] as int].pubkey@,
            decreases indices@.len() - k,
        {
            let idx = *indices.get(k).unwrap();
            pubkeys.push(self.validators.get(idx).unwrap().pubkey_copied());
            k = k + 1;
        }
        let c = SyncCommittee { pubkeys, aggregate_pubkey };
        proof {
            let idxs = self.next_sync_committee_indices_result(spec)->Ok_0;
            assert(c.pubkeys_view() =~= idxs.map_values(
                |i: usize| self.validators@[i as int].pubkey@,
            ));
        }
        Ok(c)
    }
}

/// Members that rejection sampling accepts always index the registry.
proof fn lemma_sync_indices_bounded(
    vals: Seq<Validator>,
    active: Seq<usize>,
    seed: Seq<u8>,
    spec: &ChainSpec,
    i: nat,
    fuel: nat,
    acc: Seq<usize>,
)
    requires
        forall|j: int| 0 <= j < acc.len() ==> (#[trigger] acc[j]) < vals.len(),
        sync_indices_from(vals, active, seed, spec, i, fuel, acc) is Ok,
    ensures
        forall|j: int|
            0 <= j < (sync_indices_from(vals, active, seed, spec, i, fuel, acc)->Ok_0).len()
                ==> (#[trigger] (sync_indices_from(vals, active, seed, spec, i, fuel, acc)->Ok_0)[j])
                < vals.len(),
    decreases fuel,
{
    if acc.len() >= spec.sync_committee_size {
    } else if fuel == 0 {
    } else {
        let shuffled = crate::shuffle::shuffled_index_spec(
            i % active.len(),
            active.len(),
            seed,
            spec.shuffle_round_count,
        );
        let candidate = active[shuffled as int];
        if candidate >= vals.len() {
        } else {
            let byte = random_byte_spec(seed, i);
            let eb = vals[candidate as int].effective_balance;
            if eb * MAX_RANDOM_BYTE > u64::MAX {
            } else if spec.max_effective_balance * byte > u64::MAX {
            } else if eb * MAX_RANDOM_BYTE >= spec.max_effective_balance * byte {
                lemma_sync_indices_bounded(vals, active, seed, spec, i + 1, (fuel - 1) as nat, acc.push(candidate));
            } else {
                lemma_sync_indices_bounded(vals, active, seed, spec, i + 1, (fuel - 1) as nat, acc);
            }
        }
    }
}


impl BeaconState {
    /// The committee the built-committee lookup of `epoch` decides on:
    /// the current committee for the current period, the next committee
    /// for the one after, and an error beyond both.
    pub open spec fn built_sync_committee_spec(&self, epoch: u64, spec: &ChainSpec) -> Result<
        SyncCommittee,
        Error,
    > {
        let current = self.current_epoch_spec(spec);
        let period = epoch as int / spec.epochs_per_sync_committee_period as int;
        let current_period = current as int / spec.epochs_per_sync_committee_period as int;
        if spec.epochs_per_sync_committee_period == 0 {
            Err(Error::ArithError(ArithError::DivisionByZero))
        } else if current_period + 1 > u64::MAX {
            Err(Error::ArithError(ArithError::Overflow))
        } else if period == current_period {
            match self.current_sync_committee {
                Some(c) => Ok(c),
                None => Err(Error::IncorrectStateVariant),
            }
        } else if period == current_period + 1 {
            match self.next_sync_committee {
                Some(c) => Ok(c),
                None => Err(Error::IncorrectStateVariant),
            }
        } else {
            Err(Error::SyncCommitteeNotKnown { current_epoch: current, epoch })
        }
    }

    /// The already-built sync committee covering `epoch`: the current
    /// committee for the current period, the next committee for the one
    /// after, and an error beyond both.
    pub fn get_built_sync_committee(&self, epoch: u64, spec: &ChainSpec) -> (r: Result<
        &SyncCommittee,
        Error,
    >)
        requires
            self.wf(spec),
        ensures
            ({
                match self.built_sync_committee_spec(epoch, spec) {
                    Ok(c) => r matches Ok(rc) && *rc == c,
                    Err(e) => r == Err::<&SyncCommittee, Error>(e),
                }
            }),
    {
        let sync_committee_period = match spec.sync_committee_period(epoch) {
            Ok(p) => p,
            Err(e) => {
                return Err(e);
            },
        };
        let current_epoch = self.current_epoch(spec);
        let current_period = match spec.sync_committee_period(current_epoch) {
            Ok(p) => p,
            Err(e) => {
                return Err(e);
            },
        };
        if current_period == u64::MAX {
            return Err(Error::ArithError(ArithError::Overflow));
        }
        let next_period = current_period + 1;
        if sync_committee_period == current_period {
            self.current_sync_committee()
        } else if sync_committee_period == next_period {
            self.next_sync_committee()
        } else {
            Err(Error::SyncCommitteeNotKnown { current_epoch, epoch })
        }
    }

    /// The sync committee that signs in the slot after the state's own:
    /// at a period boundary this is the next committee, since a
    /// committee assigned to a slot signs for the slot before it.
    pub fn get_sync_committee_for_next_slot(&self, spec: &ChainSpec) -> (r: Result<
        SyncCommittee,
        Error,
    >)
        requires
            self.wf(spec),
        ensures
            ({
                let current = self.current_epoch_spec(spec);
                let next_slot_epoch = Self::epoch_of_slot_spec((self.slot + 1) as u64, spec);
                if spec.epochs_per_sync_committee_period == 0 {
                    r == Err::<SyncCommittee, Error>(Error::ArithError(ArithError::DivisionByZero))
                } else if current as int / spec.epochs_per_sync_committee_period as int
                    == next_slot_epoch as int / spec.epochs_per_sync_committee_period as int {
                    match self.current_sync_committee {
                        Some(c) => r matches Ok(rc) && rc.pubkeys_view() == c.pubkeys_view()
                            && rc.aggregate_pubkey@ == c.aggregate_pubkey@,
                        None => r == Err::<SyncCommittee, Error>(Error::IncorrectStateVariant),
                    }
                } else {
                    match self.next_sync_committee {
                        Some(c) => r matches Ok(rc) && rc.pubkeys_view() == c.pubkeys_view()
                            && rc.aggregate_pubkey@ == c.aggregate_pubkey@,
                        None => r == Err::<SyncCommittee, Error>(Error::IncorrectStateVariant),
                    }
                }
            }),
    {
        let next_slot_epoch = (self.slot + 1) / spec.slots_per_epoch;
        let current_epoch = self.current_epoch(spec);
        let current_period = match spec.sync_committee_period(current_epoch) {
            Ok(p) => p,
            Err(e) => {
                return Err(e);
            },
        };
        let next_slot_period = match spec.sync_committee_period(next_slot_epoch) {
            Ok(p) => p,
            Err(e) => {
                return Err(e);
            },
        };
        if current_period == next_slot_period {
            match self.current_sync_committee() {
                Ok(c) => Ok(c.copied()),
                Err(e) => Err(e),
            }
        } else {
            match self.next_sync_committee() {
                Ok(c) => Ok(c.copied()),
                Err(e) => Err(e),
            }
        }
    }

    /// The registry indices of every member key of `sync_committee`,
    /// after bringing the pubkey cache up to date: an error when a key
    /// is not in the registry.
    pub fn get_sync_committee_indices(&mut self, sync_committee: &SyncCommittee) -> (r: Result<
        Vec<usize>,
        Error,
    >)
        ensures
            r matches Ok(v) ==> {
                &&& v@.len() == sync_committee.pubkeys@.len()
                &&& forall|k: int| 0 <= k < v@.len() ==> (#[trigger] v@[k]) < final(self).pubkey_cache@.len() && final(self).pubkey_cache@[v@[k] as int]
                    == sync_committee.pubkeys_view()[k]
            },
            r is Ok <==> keys_all_cached(
                final(self).pubkey_cache@,
                sync_committee.pubkeys_view(),
            ),
            !(r is Ok) ==> r == Err::<Vec<usize>, Error>(Error::PubkeyCacheInconsistent),
            *final(self) == (BeaconState { pubkey_cache: final(self).pubkey_cache, ..*old(self) }),
    {
        match self.update_pubkey_cache() {
            Ok(()) => (),
            Err(e) => {
                return Err(e);
            },
        }
        let mut out: Vec<usize> = Vec::new();
        let mut k: usize = 0;
        while k < sync_committee.pubkeys.len()
            invariant
                k <= sync_committee.pubkeys@.len(),
                out@.len() == k,
                forall|j: int| 0 <= j < k ==> (#[trigger] out@[j]) < self.pubkey_cache@.len()
                    && self.pubkey_cache@[out@[j] as int] == sync_committee.pubkeys_view()[j],
                *self == (BeaconState { pubkey_cache: self.pubkey_cache, ..*old(self) }),
            decreases sync_committee.pubkeys@.len() - k,
        {
            let pubkey = sync_committee.pubkeys.get(k).unwrap();
            match self.pubkey_cache.get(pubkey) {
                Some(i) => {
                    out.push(i);
                },
                None => {
                    proof {
                        assert(sync_committee.pubkeys_view()[k as int] == pubkey@);
                        assert(!key_found(
                            self.pubkey_cache@,
                            sync_committee.pubkeys_view()[k as int],
                        ));
                        assert(!keys_all_cached(
                            self.pubkey_cache@,
                            sync_committee.pubkeys_view(),
                        )) by {
                            if keys_all_cached(self.pubkey_cache@, sync_committee.pubkeys_view()) {
                                assert(key_found(
                                    self.pubkey_cache@,
                                    sync_committee.pubkeys_view()[k as int],
                                ));
                            }
                        }
                    }
                    return Err(Error::PubkeyCacheInconsistent);
                },
            }
            k = k + 1;
        }
        proof {
            assert forall|k2: int|
                0 <= k2 < sync_committee.pubkeys_view().len() implies key_found(
                    self.pubkey_cache@,
                    #[trigger] sync_committee.pubkeys_view()[k2],
                ) by {
                assert(self.pubkey_cache@[out@[k2] as int] == sync_committee.pubkeys_view()[k2]);
            }
            assert(keys_all_cached(self.pubkey_cache@, sync_committee.pubkeys_view()));
        }
        Ok(out)
    }

    /// The sync duties of the given validators at `epoch`: for each, the
    /// positions its key holds in the committee covering `epoch`, or no
    /// duty when the key is absent.
    pub fn get_sync_committee_duties(
        &self,
        epoch: u64,
        validator_indices: &Vec<u64>,
        spec: &ChainSpec,
    ) -> (r: Result<Vec<Option<crate::types::SyncDuty>>, Error>)
        requires
            self.wf(spec),
        ensures
            ({
                match self.built_sync_committee_spec(epoch, spec) {
                    Err(e) => r == Err::<Vec<Option<crate::types::SyncDuty>>, Error>(e),
                    Ok(c) => match sync_duty_index_scan(
                        self.validators@.len(),
                        validator_indices@,
                        validator_indices@.len(),
                    ) {
                        Err(e2) => r == Err::<Vec<Option<crate::types::SyncDuty>>, Error>(e2),
                        Ok(u) => r matches Ok(v) && v@.len() == validator_indices@.len()
                            && forall|k: int|
                            0 <= k < v@.len() ==> duty_entry_ok(
                                self,
                                #[trigger] v@[k],
                                validator_indices@[k],
                                c.pubkeys_view(),
                            ),
                    },
                }
            }),
    {
        let sync_committee = match self.get_built_sync_committee(epoch, spec) {
            Ok(c) => c,
            Err(e) => {
                return Err(e);
            },
        };
        let ghost committee_keys = sync_committee.pubkeys_view();
        let mut out: Vec<Option<crate::types::SyncDuty>> = Vec::new();
        let mut k: usize = 0;
        while k < validator_indices.len()
            invariant
                k <= validator_indices@.len(),
                out@.len() == k,
                committee_keys == sync_committee.pubkeys_view(),
                self.built_sync_committee_spec(epoch, spec) == Ok::<SyncCommittee, Error>(
                    *sync_committee,
                ),
                sync_duty_index_scan(self.validators@.len(), validator_indices@, k as nat)
                    == Ok::<(), Error>(()),
                forall|m: int|
                    0 <= m < k ==> duty_entry_ok(
                        self,
                        #[trigger] out@[m],
                        validator_indices@[m],
                        committee_keys,
                    ),
            decreases validator_indices@.len() - k,
        {
            let vi = *validator_indices.get(k).unwrap();
            if vi > usize::MAX as u64 {
                proof {
                    lemma_duty_scan_err_persists(
                        self.validators@.len(),
                        validator_indices@,
                        (k + 1) as nat,
                        validator_indices@.len(),
                    );
                }
                return Err(Error::UnknownValidator(usize::MAX));
            }
            let validator = match self.get_validator(vi as usize) {
                Ok(v) => v,
                Err(e) => {
                    proof {
                        lemma_duty_scan_err_persists(
                            self.validators@.len(),
                            validator_indices@,
                            (k + 1) as nat,
                            validator_indices@.len(),
                        );
                    }
                    return Err(e);
                },
            };
            let duty = sync_duty_from(vi, &validator.pubkey, sync_committee);
            let ghost gduty = duty;
            let ghost prev_out = out@;
            out.push(duty);
            proof {
                assert forall|m: int|
                    0 <= m < k + 1 implies duty_entry_ok(
                    self,
                    #[trigger] out@[m],
                    validator_indices@[m],
                    committee_keys,
                ) by {
                    if m < k {
                        assert(out@[m] == prev_out[m]);
                        assert(duty_entry_ok(
                            self,
                            prev_out[m],
                            validator_indices@[m],
                            committee_keys,
                        ));
                    } else {
                        assert(out@[m] == gduty);
                        assert(sync_duty_matches(
                            gduty,
                            validator_indices@[k as int],
                            self.validators@[validator_indices@[k as int] as int].pubkey@,
                            committee_keys,
                        ));
                        assert(duty_entry_ok(
                            self,
                            gduty,
                            validator_indices@[k as int],
                            committee_keys,
                        ));
                    }
                }
            }
            k = k + 1;
        }
        Ok(out)
    }

    /// The aggregator modulus of a committee of `len` members: the
    /// committee size over the aggregator target, floored at one.
    pub open spec fn aggregator_modulo_spec(len: nat, spec: &ChainSpec) -> nat {
        let q = len / (spec.target_aggregators_per_committee as nat);
        if q < 1 {
            1
        } else {
            q
        }
    }

    /// Whether the validator that produced `slot_signature` aggregates
    /// for its committee at `slot`: its signature digest, read as a
    /// little-endian number, must hit zero modulo the committee's
    /// aggregator modulus.
    pub fn is_aggregator(
        &self,
        slot: u64,
        index: u64,
        slot_signature: &Vec<u8>,
        spec: &ChainSpec,
    ) -> (r: Result<bool, Error>)
        requires
            self.wf(spec),
        ensures
            ({
                let epoch = Self::epoch_of_slot_spec(slot, spec);
                let current = self.current_epoch_spec(spec);
                match crate::relative_epoch::RelativeEpoch::from_epoch_spec(current, epoch) {
                    Ok(rel) => {
                        let c = self.committee_caches@[rel.cache_index_spec()];
                        if c.initialized_epoch == Some(epoch) && slot / c.slots_per_epoch == epoch
                            && index < c.committees_per_slot {
                            let iie = (slot % c.slots_per_epoch) * c.committees_per_slot + index;
                            let len = c.committee_start((iie + 1) as nat) - c.committee_start(
                                iie as nat,
                            );
                            if spec.target_aggregators_per_committee == 0 {
                                r == Err::<bool, Error>(
                                    Error::ArithError(ArithError::DivisionByZero),
                                )
                            } else {
                                r == Ok::<bool, Error>(
                                    crate::hashing::u64_from_le_spec(hash32_of(slot_signature@))
                                        % Self::aggregator_modulo_spec(len as nat, spec) == 0,
                                )
                            }
                        } else {
                            r is Err
                        }
                    },
                    Err(_) => r is Err,
                }
            }),
    {
        let committee = match self.get_beacon_committee(slot, index, spec) {
            Ok(c) => c,
            Err(e) => {
                return Err(e);
            },
        };
        if spec.target_aggregators_per_committee == 0 {
            return Err(Error::ArithError(ArithError::DivisionByZero));
        }
        proof {
            let epoch = Self::epoch_of_slot_spec(slot, spec);
            let current = self.current_epoch_spec(spec);
            match crate::relative_epoch::RelativeEpoch::from_epoch_spec(current, epoch) {
                Ok(rel) => {
                    let c = self.committee_caches@[rel.cache_index_spec()];
                    let iie = (slot % c.slots_per_epoch) * c.committees_per_slot + index;
                    assert(committee.committee@.len() == c.committee_start((iie + 1) as nat)
                        - c.committee_start(iie as nat));
                },
                Err(_) => {
                    assert(false);
                },
            }
        }
        let quotient = (committee.committee.len() as u64) / spec.target_aggregators_per_committee;
        let modulo = if quotient < 1 {
            1
        } else {
            quotient
        };
        let signature_hash = hash32(slot_signature);
        let signature_hash_int = crate::hashing::u64_from_le_bytes(&signature_hash, 0);
        proof {
            assert(signature_hash@.subrange(0, 8)[0] == signature_hash@[0]);
            assert(signature_hash@.subrange(0, 8)[1] == signature_hash@[1]);
            assert(signature_hash@.subrange(0, 8)[2] == signature_hash@[2]);
            assert(signature_hash@.subrange(0, 8)[3] == signature_hash@[3]);
            assert(signature_hash@.subrange(0, 8)[4] == signature_hash@[4]);
            assert(signature_hash@.subrange(0, 8)[5] == signature_hash@[5]);
            assert(signature_hash@.subrange(0, 8)[6] == signature_hash@[6]);
            assert(signature_hash@.subrange(0, 8)[7] == signature_hash@[7]);
        }
        Ok(signature_hash_int % modulo == 0)
    }
}

/// Whether `entry` is the duty of validator `vi` of `state` against a
/// committee with member keys `committee_keys`.
pub open spec fn duty_entry_ok(
    state: &BeaconState,
    entry: Option<crate::types::SyncDuty>,
    vi: u64,
    committee_keys: Seq<Seq<u8>>,
) -> bool {
    &&& (vi as int) < state.validators@.len()
    &&& sync_duty_matches(entry, vi, state.validators@[vi as int].pubkey@, committee_keys)
}

/// Whether `r` is the duty that `pubkey` holds against a committee with
/// member keys `committee_keys`: a duty exactly when the key holds a
/// position, listing all of the key's positions and no others.
pub open spec fn sync_duty_matches(
    r: Option<crate::types::SyncDuty>,
    validator_index: u64,
    pubkey: Seq<u8>,
    committee_keys: Seq<Seq<u8>>,
) -> bool {
    &&& (r is Some <==> key_found(committee_keys, pubkey))
    &&& (r matches Some(d) ==> {
        &&& d.validator_index == validator_index
        &&& d.pubkey@ == pubkey
        &&& forall|j: int| 0 <= j < d.validator_sync_committee_indices@.len()
            ==> (#[trigger] d.validator_sync_committee_indices@[j]) < committee_keys.len()
            && committee_keys[d.validator_sync_committee_indices@[j] as int] == pubkey
        &&& forall|k: int| 0 <= k < committee_keys.len() && committee_keys[k] == pubkey
            ==> d.validator_sync_committee_indices@.contains(k as u64)
    })
}

/// The first entry of `idxs[..k]` that does not index a registry of
/// `n_validators` entries, as the error the duty lookup raises for it.
pub open spec fn sync_duty_index_scan(n_validators: nat, idxs: Seq<u64>, k: nat) -> Result<
    (),
    Error,
>
    decreases k,
{
    if k == 0 {
        Ok(())
    } else {
        match sync_duty_index_scan(n_validators, idxs, (k - 1) as nat) {
            Err(e) => Err(e),
            Ok(u) => {
                let vi = idxs[k - 1];
                if vi > usize::MAX {
                    Err(Error::UnknownValidator(usize::MAX as usize))
                } else if vi as nat >= n_validators {
                    Err(Error::UnknownValidator(vi as usize))
                } else {
                    Ok(())
                }
            },
        }
    }
}

/// An index scan that has failed stays failed as it continues.
proof fn lemma_duty_scan_err_persists(n_validators: nat, idxs: Seq<u64>, k1: nat, k2: nat)
    requires
        k1 <= k2,
        sync_duty_index_scan(n_validators, idxs, k1) is Err,
    ensures
        sync_duty_index_scan(n_validators, idxs, k2) == sync_duty_index_scan(
            n_validators,
            idxs,
            k1,
        ),
    decreases k2,
{
    if k1 < k2 {
        lemma_duty_scan_err_persists(n_validators, idxs, k1, (k2 - 1) as nat);
    }
}

/// The positions that `pubkey` holds in `committee`, as a duty: no duty
/// when the key holds no position.
pub fn sync_duty_from(
    validator_index: u64,
    pubkey: &Vec<u8>,
    committee: &SyncCommittee,
) -> (r: Option<crate::types::SyncDuty>)
    ensures
        sync_duty_matches(r, validator_index, pubkey@, committee.pubkeys_view()),
{
    let mut positions: Vec<u64> = Vec::new();
    let mut k: usize = 0;
    while k < committee.pubkeys.len()
        invariant
            k <= committee.pubkeys@.len(),
            forall|j: int| 0 <= j < positions@.len() ==> (#[trigger] positions@[j]) < k
                && committee.pubkeys_view()[positions@[j] as int] == pubkey@,
            forall|m: int| 0 <= m < k && committee.pubkeys_view()[m] == pubkey@
                ==> positions@.contains(m as u64),
        decreases committee.pubkeys@.len() - k,
    {
        if crate::validator::bytes_eq(committee.pubkeys.get(k).unwrap(), pubkey) {
            let ghost prev = positions@;
            positions.push(k as u64);
            proof {
                assert forall|m: int| 0 <= m < k + 1 && committee.pubkeys_view()[m] == pubkey@
                    implies positions@.contains(m as u64) by {
                    if m < k {
                        let j = choose|j: int| 0 <= j < prev.len() && prev[j] == m as u64;
                        assert(positions@[j] == m as u64);
                    } else {
                        assert(positions@[positions@.len() - 1] == k as u64);
                    }
                }
            }
        } else {
            proof {
                assert(committee.pubkeys_view()[k as int] != pubkey@);
                assert forall|m: int| 0 <= m < k + 1 && committee.pubkeys_view()[m] == pubkey@
                    implies positions@.contains(m as u64) by {
                    assert(m < k);
                }
            }
        }
        k = k + 1;
    }
    if positions.len() == 0 {
        proof {
            assert forall|k2: int|
                0 <= k2 < committee.pubkeys_view().len() implies committee.pubkeys_view()[k2]
                != pubkey@ by {
                if committee.pubkeys_view()[k2] == pubkey@ {
                    assert(positions@.contains(k2 as u64));
                }
            }
        }
        None
    } else {
        proof {
            assert(committee.pubkeys_view()[positions@[0] as int] == pubkey@);
        }
        Some(crate::types::SyncDuty {
            validator_index,
            pubkey: crate::validator::copy_bytes(pubkey),
            validator_sync_committee_indices: positions,
        })
    }
}


/// A vector of `n` zero hashes.
pub(crate) fn zero_hashes(n: usize) -> (r: Vec<Hash256>)
    ensures
        r@.len() == n,
        forall|i: int| 0 <= i < n ==> (#[trigger] r@[i]).wf() && r@[i].is_zero_spec(),
{
    let mut r: Vec<Hash256> = Vec::new();
    let mut i: usize = 0;
    while i < n
        invariant
            i <= n,
            r@.len() == i,
            forall|j: int| 0 <= j < i ==> (#[trigger] r@[j]).wf() && r@[j].is_zero_spec(),
        decreases n - i,
    {
        r.push(Hash256::zero());
        i = i + 1;
    }
    r
}

/// A vector of `n` zeros.
pub(crate) fn zero_u64s(n: usize) -> (r: Vec<u64>)
    ensures
        r@.len() == n,
        forall|i: int| 0 <= i < n ==> (#[trigger] r@[i]) == 0,
{
    let mut r: Vec<u64> = Vec::new();
    let mut i: usize = 0;
    while i < n
        invariant
            i <= n,
            r@.len() == i,
            forall|j: int| 0 <= j < i ==> (#[trigger] r@[j]) == 0,
        decreases n - i,
    {
        r.push(0);
        i = i + 1;
    }
    r
}

impl BeaconState {
    /// Create a new state suitable for genesis: the genesis-fork variant
    /// at the genesis slot, with empty registry, zeroed buffers and all
    /// caches unbuilt. Registry and roots are set by later genesis
    /// processing.
    pub fn new(genesis_time: u64, eth1_data: Eth1Data, spec: &ChainSpec) -> (r: BeaconState)
        requires
            spec.wf(),
        ensures
            r.wf(spec),
            r.fork_name == ForkName::Base,
            r.genesis_time == genesis_time,
            r.genesis_validators_root.wf(),
            r.genesis_validators_root.is_zero_spec(),
            r.slot == spec.genesis_slot,
            r.fork == (Fork {
                previous_version: spec.genesis_fork_version,
                current_version: spec.genesis_fork_version,
                epoch: 0u64,
            }),
            r.eth1_data == eth1_data,
            r.validators@.len() == 0,
            r.balances@.len() == 0,
            r.total_active_balance is None,
            forall|i: int| 0 <= i < crate::CACHED_EPOCHS
                ==> (#[trigger] r.committee_caches@[i]).initialized_epoch is None,
            r.pubkey_cache@.len() == 0,
            !r.exit_cache.initialized,
            r.slashings_cache.latest_block_slot is None,
    {
        let mut committee_caches: Vec<CommitteeCache> = Vec::new();
        committee_caches.push(CommitteeCache::default());
        committee_caches.push(CommitteeCache::default());
        committee_caches.push(CommitteeCache::default());
        BeaconState {
            fork_name: ForkName::Base,
            genesis_time,
            genesis_validators_root: Hash256::zero(),
            slot: spec.genesis_slot,
            fork: Fork {
                previous_version: spec.genesis_fork_version,
                current_version: spec.genesis_fork_version,
                epoch: 0,
            },
            latest_block_header: BeaconBlockHeader {
                slot: 0,
                proposer_index: 0,
                parent_root: Hash256::zero(),
                state_root: Hash256::zero(),
                body_root: Hash256::zero(),
            },
            block_roots: zero_hashes(spec.slots_per_historical_root as usize),
            state_roots: zero_hashes(spec.slots_per_historical_root as usize),
            historical_roots: Vec::new(),
            eth1_data,
            eth1_data_votes: Vec::new(),
            eth1_deposit_index: 0,
            validators: Vec::new(),
            balances: Vec::new(),
            randao_mixes: zero_hashes(spec.epochs_per_historical_vector as usize),
            slashings: zero_u64s(spec.epochs_per_slashings_vector as usize),
            previous_epoch_attestations: Some(Vec::new()),
            current_epoch_attestations: Some(Vec::new()),
            previous_epoch_participation: None,
            current_epoch_participation: None,
            justification_bits: Vec::new(),
            previous_justified_checkpoint: Checkpoint { epoch: 0, root: Hash256::zero() },
            current_justified_checkpoint: Checkpoint { epoch: 0, root: Hash256::zero() },
            finalized_checkpoint: Checkpoint { epoch: 0, root: Hash256::zero() },
            inactivity_scores: None,
            current_sync_committee: None,
            next_sync_committee: None,
            latest_execution_payload_header: None,
            next_withdrawal_index: None,
            next_withdrawal_validator_index: None,
            historical_summaries: None,
            total_active_balance: None,
            committee_caches,
            progressive_balances_cache: ProgressiveBalancesCache::default(),
            pubkey_cache: PubkeyCache::default(),
            exit_cache: ExitCache::default(),
            slashings_cache: SlashingsCache::default(),
            epoch_cache: EpochCache::default(),
        }
    }

    /// Adopts the base state's caches wherever the base's own epoch
    /// arithmetic identifies a matching relative epoch: the pubkey cache
    /// when the base's covers more of the registry, and each committee
    /// cache whose epoch aligns. A pure optimization whose adopted
    /// caches must equal independently rebuilt ones; see
    /// [`crate::committee_cache::lemma_rebase_equivalence`].
    pub fn rebase_caches_on(&mut self, base: &BeaconState, spec: &ChainSpec) -> (r: Result<
        (),
        Error,
    >)
        requires
            old(self).wf(spec),
            base.wf(spec),
        ensures
            *final(self) == (BeaconState {
                pubkey_cache: final(self).pubkey_cache,
                committee_caches: final(self).committee_caches,
                total_active_balance: final(self).total_active_balance,
                ..*old(self)
            }),
            final(self).wf(spec),
            final(self).pubkey_cache@ == if old(self).pubkey_cache@.len()
                < base.pubkey_cache@.len() && old(self).pubkey_cache@.len() < old(
                self,
            ).validators@.len() {
                base.pubkey_cache@
            } else {
                old(self).pubkey_cache@
            },
            r is Ok <==> (old(self).rebase_slot_adopt_ok(
                base,
                old(self).previous_epoch_spec(spec),
                spec,
            ) && old(self).rebase_slot_adopt_ok(base, old(self).current_epoch_spec(spec), spec)
                && old(self).rebase_slot_adopt_ok(
                base,
                (old(self).current_epoch_spec(spec) + 1) as u64,
                spec,
            )),
            r is Ok ==> adopted_slot_ok(
                &final(self).committee_caches@[0],
                &old(self).committee_caches@[0],
                base,
                base.current_epoch_spec(spec),
                old(self).previous_epoch_spec(spec),
                spec,
            ),
            r is Ok ==> adopted_slot_ok(
                &final(self).committee_caches@[1],
                &old(self).committee_caches@[1],
                base,
                base.current_epoch_spec(spec),
                old(self).current_epoch_spec(spec),
                spec,
            ),
            r is Ok ==> adopted_slot_ok(
                &final(self).committee_caches@[2],
                &old(self).committee_caches@[2],
                base,
                base.current_epoch_spec(spec),
                (old(self).current_epoch_spec(spec) + 1) as u64,
                spec,
            ),
    {
        let num_validators = self.validators.len();
        if self.pubkey_cache.len() < base.pubkey_cache.len() && self.pubkey_cache.len()
            < num_validators {
            self.pubkey_cache = base.pubkey_cache.copied();
            proof {
                assert(self.pubkey_cache@ =~= base.pubkey_cache@);
            }
        }
        let base_current = base.current_epoch(spec);
        let previous = self.previous_epoch(spec);
        let current = self.current_epoch(spec);
        let next = current + 1;

        let ghost s0 = *self;
        proof {
            lemma_rebase_conditions_carry(&s0, old(self), base, spec);
        }
        match self.adopt_base_cache(base, 0, previous, base_current, current, spec) {
            Ok(()) => (),
            Err(e) => {
                return Err(e);
            },
        }
        let ghost s1 = *self;
        proof {
            lemma_rebase_conditions_carry(&s1, old(self), base, spec);
        }
        match self.adopt_base_cache(base, 1, current, base_current, current, spec) {
            Ok(()) => (),
            Err(e) => {
                return Err(e);
            },
        }
        let ghost s2 = *self;
        proof {
            lemma_rebase_conditions_carry(&s2, old(self), base, spec);
        }
        match self.adopt_base_cache(base, 2, next, base_current, current, spec) {
            Ok(()) => (),
            Err(e) => {
                return Err(e);
            },
        }
        Ok(())
    }
}

/// The adoption-success conditions depend only on the registry, the
/// state's slot and whether the total cell serves the current epoch:
/// two states agreeing on those agree on every slot's condition.
proof fn lemma_rebase_conditions_carry(a: &BeaconState, b: &BeaconState, base: &BeaconState, spec: &ChainSpec)
    requires
        a.validators@ == b.validators@,
        a.slot == b.slot,
        a.rebase_total_ok(spec) == b.rebase_total_ok(spec),
    ensures
        forall|epoch: u64| #[trigger] a.rebase_slot_adopt_ok(base, epoch, spec)
            == b.rebase_slot_adopt_ok(base, epoch, spec),
{
}


impl BeaconState {
    /// Whether the total-balance refill that a cache adoption at the
    /// current epoch triggers can succeed: the cell already serves the
    /// current epoch, or the active-balance sum fits the machine.
    pub open spec fn rebase_total_ok(&self, spec: &ChainSpec) -> bool {
        ||| (self.total_active_balance matches Some(cell) && cell.0 == self.current_epoch_spec(
            spec,
        ))
        ||| active_balance_upto(
            self.validators@,
            self.current_epoch_spec(spec),
            self.validators@.len(),
        ) <= u64::MAX
    }

    /// Whether adopting the base's cache for `epoch` can succeed: the
    /// base's epoch arithmetic finds no match (nothing to adopt), or the
    /// aligned base slot is built for exactly `epoch` and the refill the
    /// adoption triggers at the current epoch can succeed.
    pub open spec fn rebase_slot_adopt_ok(&self, base: &BeaconState, epoch: u64, spec: &ChainSpec) -> bool {
        match crate::relative_epoch::RelativeEpoch::from_epoch_spec(
            base.current_epoch_spec(spec),
            epoch,
        ) {
            Ok(base_rel) => base.committee_caches@[base_rel.cache_index_spec()].initialized_epoch
                == Some(epoch) && (epoch == self.current_epoch_spec(spec)
                ==> self.rebase_total_ok(spec)),
            Err(_) => true,
        }
    }
}

/// How one cache slot relates to the base after a rebase: adopted from
/// the base when the base's epoch arithmetic finds the epoch among its
/// own three, untouched otherwise.
pub open spec fn adopted_slot_ok(
    new_cache: &CommitteeCache,
    old_cache: &CommitteeCache,
    base: &BeaconState,
    base_current: u64,
    epoch: u64,
    spec: &ChainSpec,
) -> bool {
    match crate::relative_epoch::RelativeEpoch::from_epoch_spec(base_current, epoch) {
        Ok(base_rel) => crate::committee_cache::cache_equiv(
            new_cache,
            &base.committee_caches@[base_rel.cache_index_spec()],
        ),
        Err(_) => new_cache == old_cache,
    }
}

impl BeaconState {
    /// Adopts the base's cache for `epoch` into slot `index` when the
    /// base holds `epoch` as one of its own three relative epochs; also
    /// refills the total-active-balance cell when the adopted epoch is
    /// the current one. Errors when the aligned base slot is unbuilt:
    /// adopting a cache built for a different epoch is exactly the
    /// defect this check rules out.
    fn adopt_base_cache(
        &mut self,
        base: &BeaconState,
        index: usize,
        epoch: u64,
        base_current: u64,
        self_current: u64,
        spec: &ChainSpec,
    ) -> (r: Result<(), Error>)
        requires
            old(self).wf(spec),
            base.wf(spec),
            index < crate::CACHED_EPOCHS,
            base_current == base.current_epoch_spec(spec),
            self_current == old(self).current_epoch_spec(spec),
        ensures
            r is Ok <==> old(self).rebase_slot_adopt_ok(base, epoch, spec),
            ({
                match crate::relative_epoch::RelativeEpoch::from_epoch_spec(base_current, epoch) {
                    Ok(base_rel) => {
                        &&& (base.committee_caches@[base_rel.cache_index_spec()].initialized_epoch
                            != Some(epoch) ==> r == Err::<(), Error>(
                            Error::CommitteeCacheUninitialized(Some(base_rel)),
                        ))
                        &&& (base.committee_caches@[base_rel.cache_index_spec()].initialized_epoch
                            == Some(epoch) && !(r is Ok) ==> r == Err::<(), Error>(
                            Error::ArithError(ArithError::Overflow),
                        ))
                    },
                    Err(_) => *final(self) == *old(self),
                }
            }),
            epoch != old(self).current_epoch_spec(spec) ==> final(self).total_active_balance
                == old(self).total_active_balance,
            (old(self).total_active_balance matches Some(cell) && cell.0 == old(self).current_epoch_spec(spec))
                ==> final(self).total_active_balance == old(self).total_active_balance,
            r is Ok && epoch == old(self).current_epoch_spec(spec)
                && crate::relative_epoch::RelativeEpoch::from_epoch_spec(base_current, epoch)
                is Ok ==> (final(self).total_active_balance matches Some(cell) && cell.0 == old(self).current_epoch_spec(spec)),
            r is Ok ==> adopted_slot_ok(
                &final(self).committee_caches@[index as int],
                &old(self).committee_caches@[index as int],
                base,
                base_current,
                epoch,
                spec,
            ),
            forall|j: int| 0 <= j < crate::CACHED_EPOCHS && j != index
                ==> final(self).committee_caches@[j] == old(self).committee_caches@[j],
            final(self).committee_caches@.len() == crate::CACHED_EPOCHS,
            *final(self) == (BeaconState {
                committee_caches: final(self).committee_caches,
                total_active_balance: final(self).total_active_balance,
                ..*old(self)
            }),
            final(self).wf(spec),
    {
        let base_rel = match crate::relative_epoch::RelativeEpoch::from_epoch(base_current, epoch) {
            Ok(rel) => rel,
            Err(_) => {
                return Ok(());
            },
        };
        proof {
            crate::relative_epoch::lemma_from_into_epoch(base_current, epoch);
        }
        let base_cache = match base.committee_cache(base_rel, spec) {
            Ok(c) => c,
            Err(e) => {
                return Err(e);
            },
        };
        self.committee_caches.set(index, base_cache.copied());
        if epoch == self_current {
            match self.build_total_active_balance_cache_at(self_current, spec) {
                Ok(()) => (),
                Err(e) => {
                    return Err(e);
                },
            }
        }
        Ok(())
    }

    /// Rebase this state onto `base`: adopt the base's sync committees
    /// where they are deep-equal (a reallocation saving, never a value
    /// change), and adopt the base's committee, pubkey and total-balance
    /// caches where the epochs align. The structural merge of the
    /// persistent list fields is representation sharing with no
    /// value-level effect, and is skipped entirely across fork variants.
    pub fn rebase_on(&mut self, base: &BeaconState, spec: &ChainSpec) -> (r: Result<(), Error>)
        requires
            old(self).wf(spec),
            base.wf(spec),
        ensures
            *final(self) == (BeaconState {
                pubkey_cache: final(self).pubkey_cache,
                committee_caches: final(self).committee_caches,
                total_active_balance: final(self).total_active_balance,
                current_sync_committee: final(self).current_sync_committee,
                next_sync_committee: final(self).next_sync_committee,
                ..*old(self)
            }),
            sync_committee_value_eq(
                &final(self).current_sync_committee,
                &old(self).current_sync_committee,
            ),
            sync_committee_value_eq(
                &final(self).next_sync_committee,
                &old(self).next_sync_committee,
            ),
            final(self).wf(spec),
            final(self).pubkey_cache@ == if old(self).pubkey_cache@.len()
                < base.pubkey_cache@.len() && old(self).pubkey_cache@.len() < old(
                self,
            ).validators@.len() {
                base.pubkey_cache@
            } else {
                old(self).pubkey_cache@
            },
            r is Ok <==> (old(self).rebase_slot_adopt_ok(
                base,
                old(self).previous_epoch_spec(spec),
                spec,
            ) && old(self).rebase_slot_adopt_ok(base, old(self).current_epoch_spec(spec), spec)
                && old(self).rebase_slot_adopt_ok(
                base,
                (old(self).current_epoch_spec(spec) + 1) as u64,
                spec,
            )),
            r is Ok ==> adopted_slot_ok(
                &final(self).committee_caches@[1],
                &old(self).committee_caches@[1],
                base,
                base.current_epoch_spec(spec),
                old(self).current_epoch_spec(spec),
                spec,
            ),
    {
        let cur_eq = match (&self.current_sync_committee, &base.current_sync_committee) {
            (Some(own), Some(other)) => own.deep_eq(other),
            _ => false,
        };
        if cur_eq {
            match &base.current_sync_committee {
                Some(other) => {
                    self.current_sync_committee = Some(other.copied());
                },
                None => (),
            }
        }
        let next_eq = match (&self.next_sync_committee, &base.next_sync_committee) {
            (Some(own), Some(other)) => own.deep_eq(other),
            _ => false,
        };
        if next_eq {
            match &base.next_sync_committee {
                Some(other) => {
                    self.next_sync_committee = Some(other.copied());
                },
                None => (),
            }
        }
        let ghost s_before = *self;
        proof {
            lemma_rebase_conditions_carry(&s_before, old(self), base, spec);
        }
        self.rebase_caches_on(base, spec)
    }
}

/// Two optional sync committees hold the same value: both absent, or
/// both present with equal keys and aggregate.
pub open spec fn sync_committee_value_eq(a: &Option<SyncCommittee>, b: &Option<SyncCommittee>) -> bool {
    match (a, b) {
        (Some(x), Some(y)) => x.pubkeys_view() == y.pubkeys_view() && x.aggregate_pubkey@
            == y.aggregate_pubkey@,
        (None, None) => true,
        _ => false,
    }
}


/// The fixed byte offset of the slot field in a wire-encoded state: the
/// eight genesis-time bytes and the 32-byte genesis validators root
/// precede it.
pub const WIRE_SLOT_OFFSET: usize = 40;

/// One past the last byte of the wire-encoded slot field.
pub const WIRE_SLOT_END: usize = 48;

impl BeaconState {
    /// The fork-dispatch step of decoding a wire-encoded state. The wire
    /// encoding is fork-implicit: the decoder reads the slot at its fixed
    /// position and consults the supplied schedule for the fork whose
    /// field layout decodes the remainder. Decoding the body itself is
    /// the canonical codec's work.
    pub fn from_ssz_bytes(bytes: &Vec<u8>, spec: &ChainSpec) -> (r: Result<
        ForkName,
        crate::error::DecodeError,
    >)
        requires
            spec.wf(),
        ensures
            bytes@.len() < WIRE_SLOT_END ==> r == Err::<ForkName, crate::error::DecodeError>(
                crate::error::DecodeError::InvalidByteLength {
                    len: bytes@.len() as usize,
                    expected: WIRE_SLOT_END,
                },
            ),
            bytes@.len() >= WIRE_SLOT_END ==> ({
                let slot = crate::hashing::u64_from_le_spec(
                    bytes@.subrange(WIRE_SLOT_OFFSET as int, WIRE_SLOT_END as int),
                );
                r == Ok::<ForkName, crate::error::DecodeError>(
                    spec.fork_at_epoch_spec(((slot as u64) / spec.slots_per_epoch) as u64),
                )
            }),
    {
        if bytes.len() < WIRE_SLOT_END {
            return Err(crate::error::DecodeError::InvalidByteLength {
                len: bytes.len(),
                expected: WIRE_SLOT_END,
            });
        }
        let slot = crate::hashing::u64_from_le_bytes(bytes, WIRE_SLOT_OFFSET);
        Ok(spec.fork_name_at_slot(slot))
    }

    /// Replaces the validator record at `validator_index`; the rest of
    /// the state is unchanged.
    pub fn set_validator(&mut self, validator_index: usize, validator: Validator) -> (r: Result<
        (),
        Error,
    >)
        ensures
            r is Ok <==> validator_index < old(self).validators@.len(),
            r is Ok ==> final(self).validators@ == old(self).validators@.update(
                validator_index as int,
                validator,
            ),
            !(r is Ok) ==> *final(self) == *old(self) && r == Err::<(), Error>(
                Error::UnknownValidator(validator_index),
            ),
            *final(self) == (BeaconState { validators: final(self).validators, ..*old(self) }),
    {
        if validator_index < self.validators.len() {
            self.validators.set(validator_index, validator);
            Ok(())
        } else {
            Err(Error::UnknownValidator(validator_index))
        }
    }

    /// The total effective balance of the given validators, floored at
    /// one effective-balance increment: the first unknown index or
    /// overflowing partial sum decides the error.
    pub fn get_total_balance(&self, validator_indices: &Vec<usize>, spec: &ChainSpec) -> (r:
        Result<u64, Error>)
        ensures
            ({
                match total_balance_scan(self.validators@, validator_indices@, validator_indices@.len()) {
                    Ok(total) => r == Ok::<u64, Error>(
                        if total < spec.effective_balance_increment {
                            spec.effective_balance_increment
                        } else {
                            total as u64
                        },
                    ),
                    Err(e) => r == Err::<u64, Error>(e),
                }
            }),
    {
        let mut total: u64 = 0;
        let mut k: usize = 0;
        let n = validator_indices.len();
        while k < n
            invariant
                n == validator_indices@.len(),
                k <= n,
                total_balance_scan(self.validators@, validator_indices@, k as nat) == Ok::<
                    int,
                    Error,
                >(total as int),
            decreases n - k,
        {
            let i = *validator_indices.get(k).unwrap();
            if i >= self.validators.len() {
                proof {
                    lemma_scan_err_persists(
                        self.validators@,
                        validator_indices@,
                        (k + 1) as nat,
                        validator_indices@.len(),
                    );
                }
                return Err(Error::UnknownValidator(i));
            }
            let eb = self.validators.get(i).unwrap().effective_balance();
            total = match total.checked_add(eb) {
                Some(t) => t,
                None => {
                    proof {
                        lemma_scan_err_persists(
                            self.validators@,
                            validator_indices@,
                            (k + 1) as nat,
                            validator_indices@.len(),
                        );
                    }
                    return Err(Error::ArithError(ArithError::Overflow));
                },
            };
            k = k + 1;
        }
        if total < spec.effective_balance_increment {
            Ok(spec.effective_balance_increment)
        } else {
            Ok(total)
        }
    }
}

/// The running total of the effective balances of `idxs[..k]`, or the
/// first error the scan hits: an unknown index or a sum leaving 64 bits.
pub open spec fn total_balance_scan(vals: Seq<Validator>, idxs: Seq<usize>, k: nat) -> Result<
    int,
    Error,
>
    decreases k,
{
    if k == 0 {
        Ok(0)
    } else {
        match total_balance_scan(vals, idxs, (k - 1) as nat) {
            Ok(acc) => {
                let i = idxs[k - 1];
                if i >= vals.len() {
                    Err(Error::UnknownValidator(i as usize))
                } else if acc + vals[i as int].effective_balance > u64::MAX {
                    Err(Error::ArithError(ArithError::Overflow))
                } else {
                    Ok(acc + vals[i as int].effective_balance)
                }
            },
            Err(e) => Err(e),
        }
    }
}

/// A scan that has failed stays failed as it continues.
proof fn lemma_scan_err_persists(vals: Seq<Validator>, idxs: Seq<usize>, k1: nat, k2: nat)
    requires
        k1 <= k2,
        total_balance_scan(vals, idxs, k1) is Err,
    ensures
        total_balance_scan(vals, idxs, k2) == total_balance_scan(vals, idxs, k1),
    decreases k2,
{
    if k1 < k2 {
        lemma_scan_err_persists(vals, idxs, k1, (k2 - 1) as nat);
    }
}


impl BeaconState {
    /// The base reward of one validator, from the epoch cache.
    pub fn get_base_reward(&self, validator_index: usize) -> (r: Result<u64, Error>)
        ensures
            !self.epoch_cache.initialized ==> r == Err::<u64, Error>(
                Error::EpochCacheUninitialized,
            ),
            self.epoch_cache.initialized && validator_index
                >= self.epoch_cache.base_rewards@.len() ==> r == Err::<u64, Error>(
                Error::UnknownValidator(validator_index),
            ),
            self.epoch_cache.initialized && validator_index < self.epoch_cache.base_rewards@.len()
                ==> r == Ok::<u64, Error>(self.epoch_cache.base_rewards@[validator_index as int]),
    {
        self.epoch_cache.get_base_reward(validator_index)
    }
}

} // verus!
