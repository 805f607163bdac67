//! Inclusion-list records: transactions a proposer commits to include,
//! and the aggregated per-address commitments derived from them.
use vstd::prelude::*;

verus! {

/// A proposer's inclusion request: the transactions it commits to.
#[derive(Debug, Clone, PartialEq, Eq)]
pub struct InclusionRequest {
    pub slot: u64,
    pub proposer_index: usize,
    pub entries: Vec<Vec<u8>>,
}

/// One aggregated inclusion entry: the sender address it covers, the gas
/// it reserves, and the bitlist of requests that contributed.
#[derive(Debug, Clone, PartialEq, Eq)]
pub struct InclusionListAggregatedEntry {
    pub from_address: Vec<u8>,
    pub gas_limit: u64,
    pub bitlist: Vec<u8>,
}

/// The aggregate of a slot's inclusion requests.
#[derive(Debug, Clone, PartialEq, Eq)]
pub struct InclusionListAggregated {
    pub slot: u64,
    pub proposer_index: usize,
    pub message: Vec<InclusionListAggregatedEntry>,
}

} // verus!
