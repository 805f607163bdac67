//! The small canonical records carried by the state.
use vstd::prelude::*;
use crate::hash256::Hash256;
use crate::validator::{bytes_eq, copy_bytes, PUBKEY_LEN};

verus! {

/// A fork identifier: the versions either side of the fork boundary and the
/// epoch it activates at.
#[derive(Debug, Clone, Copy, PartialEq, Eq, Structural)]
pub struct Fork {
    pub previous_version: u32,
    pub current_version: u32,
    pub epoch: u64,
}

/// An (epoch, root) pair naming a justified or finalized point.
#[derive(Debug, Clone, PartialEq, Eq)]
pub struct Checkpoint {
    pub epoch: u64,
    pub root: Hash256,
}

impl Checkpoint {
    pub open spec fn wf(&self) -> bool {
        self.root.wf()
    }
}

/// A snapshot of the deposit contract's state.
#[derive(Debug, Clone, PartialEq, Eq)]
pub struct Eth1Data {
    pub deposit_root: Hash256,
    pub deposit_count: u64,
    pub block_hash: Hash256,
}

impl Eth1Data {
    pub open spec fn wf(&self) -> bool {
        self.deposit_root.wf() && self.block_hash.wf()
    }
}

/// The header of the latest block applied to the state.
#[derive(Debug, Clone, PartialEq, Eq)]
pub struct BeaconBlockHeader {
    pub slot: u64,
    pub proposer_index: u64,
    pub parent_root: Hash256,
    pub state_root: Hash256,
    pub body_root: Hash256,
}

impl BeaconBlockHeader {
    pub open spec fn wf(&self) -> bool {
        self.parent_root.wf() && self.state_root.wf() && self.body_root.wf()
    }
}

/// The data an attestation votes for.
#[derive(Debug, Clone, PartialEq, Eq)]
pub struct AttestationData {
    pub slot: u64,
    pub index: u64,
    pub beacon_block_root: Hash256,
    pub source: Checkpoint,
    pub target: Checkpoint,
}

/// An attestation pending processing, kept only by the genesis fork.
#[derive(Debug, Clone, PartialEq, Eq)]
pub struct PendingAttestation {
    pub aggregation_bits: Vec<u8>,
    pub data: AttestationData,
    pub inclusion_delay: u64,
    pub proposer_index: u64,
}

/// The pair of roots summarising one completed historical period.
#[derive(Debug, Clone, PartialEq, Eq)]
pub struct HistoricalSummary {
    pub block_summary_root: Hash256,
    pub state_summary_root: Hash256,
}

/// The execution-layer payload header resident in post-merge states.
#[derive(Debug, Clone, PartialEq, Eq)]
pub struct ExecutionPayloadHeader {
    pub parent_hash: Hash256,
    pub block_number: u64,
    pub timestamp: u64,
    pub block_hash: Hash256,
}

/// A snapshot of the applied block- and state-root buffers.
#[derive(Debug, Clone, PartialEq, Eq)]
pub struct HistoricalBatch {
    pub block_roots: Vec<Hash256>,
    pub state_roots: Vec<Hash256>,
}

/// A sync committee: the members' public keys in committee order, and the
/// aggregate of those keys as computed by the caller's aggregation
/// primitive.
#[derive(Debug, Clone, PartialEq, Eq)]
pub struct SyncCommittee {
    pub pubkeys: Vec<Vec<u8>>,
    pub aggregate_pubkey: Vec<u8>,
}

impl SyncCommittee {
    /// Member keys hold 48 bytes each.
    pub open spec fn wf(&self) -> bool {
        forall|i: int| 0 <= i < self.pubkeys@.len() ==> (#[trigger] self.pubkeys@[i])@.len()
            == PUBKEY_LEN
    }

    /// The member keys as a sequence of byte sequences.
    pub open spec fn pubkeys_view(&self) -> Seq<Seq<u8>> {
        self.pubkeys@.map_values(|p: Vec<u8>| p@)
    }

    /// Deep equality of two sync committees.
    pub fn deep_eq(&self, other: &SyncCommittee) -> (r: bool)
        ensures
            r == (self.pubkeys_view() == other.pubkeys_view() && self.aggregate_pubkey@
                == other.aggregate_pubkey@),
    {
        if !bytes_eq(&self.aggregate_pubkey, &other.aggregate_pubkey) {
            return false;
        }
        if self.pubkeys.len() != other.pubkeys.len() {
            assert(self.pubkeys_view().len() != other.pubkeys_view().len());
            return false;
        }
        let mut i: usize = 0;
        while i < self.pubkeys.len()
            invariant
                i <= self.pubkeys@.len(),
                self.pubkeys@.len() == other.pubkeys@.len(),
                forall|j: int| 0 <= j < i ==> (#[trigger] self.pubkeys@[j])@
                    == (other.pubkeys@[j])@,
        decreases self.pubkeys@.len() - i,
        {
            if !bytes_eq(self.pubkeys.get(i).unwrap(), other.pubkeys.get(i).unwrap()) {
                assert(self.pubkeys_view()[i as int] != other.pubkeys_view()[i as int]);
                return false;
            }
            i = i + 1;
        }
        proof {
            assert(self.pubkeys_view() =~= other.pubkeys_view());
        }
        true
    }

    /// An explicit copy of the committee.
    pub fn copied(&self) -> (r: SyncCommittee)
        ensures
            r.pubkeys_view() == self.pubkeys_view(),
            r.aggregate_pubkey@ == self.aggregate_pubkey@,
            self.wf() ==> r.wf(),
    {
        let mut pubkeys: Vec<Vec<u8>> = Vec::new();
        let mut i: usize = 0;
        while i < self.pubkeys.len()
            invariant
                i <= self.pubkeys@.len(),
                pubkeys@.len() == i,
                forall|j: int| 0 <= j < i ==> (#[trigger] pubkeys@[j])@ == (self.pubkeys@[j])@,
            decreases self.pubkeys@.len() - i,
        {
            pubkeys.push(copy_bytes(self.pubkeys.get(i).unwrap()));
            i = i + 1;
        }
        let r = SyncCommittee { pubkeys, aggregate_pubkey: copy_bytes(&self.aggregate_pubkey) };
        proof {
            assert(r.pubkeys_view() =~= self.pubkeys_view());
            if self.wf() {
                assert forall|j: int| 0 <= j < r.pubkeys@.len() implies (#[trigger] r.pubkeys@[j])@.len()
                    == PUBKEY_LEN by {
                    assert((self.pubkeys@[j])@.len() == PUBKEY_LEN);
                }
            }
        }
        r
    }
}

/// The duty of one validator within a sync committee: the positions its key
/// occupies, or no duty when the key is absent.
#[derive(Debug, Clone, PartialEq, Eq)]
pub struct SyncDuty {
    pub validator_index: u64,
    pub pubkey: Vec<u8>,
    pub validator_sync_committee_indices: Vec<u64>,
}

/// The duty of one validator for one slot's attestation.
#[derive(Debug, Clone, Copy, PartialEq, Eq, Structural)]
pub struct AttestationDuty {
    pub slot: u64,
    pub index: u64,
    pub committee_position: usize,
    pub committee_len: usize,
    pub committees_at_slot: u64,
}

/// One committee of a slot: the slot, the committee's index in it, and the
/// members as validator indices.
#[derive(Debug, Clone, PartialEq, Eq)]
pub struct BeaconCommittee {
    pub slot: u64,
    pub index: u64,
    pub committee: Vec<usize>,
}

} // verus!
