//! The slashings cache: the set of slashed validator indices, keyed to
//! the block that produced it.
use vstd::prelude::*;
use crate::validator::Validator;

verus! {

/// A snapshot of which validators carry the slashed flag, valid for one
/// latest-block slot.
#[derive(Debug, Clone, PartialEq, Eq)]
pub struct SlashingsCache {
    pub latest_block_slot: Option<u64>,
    /// Ascending indices of the validators slashed at snapshot time.
    pub slashed_validators: Vec<u64>,
}

impl Default for SlashingsCache {
    /// The unbuilt cache.
    fn default() -> (r: SlashingsCache)
        ensures
            r.latest_block_slot is None,
            r.slashed_validators@.len() == 0,
    {
        SlashingsCache { latest_block_slot: None, slashed_validators: Vec::new() }
    }
}

impl SlashingsCache {
    /// Returns `true` iff the cache was built at `latest_block_slot`.
    pub fn is_initialized(&self, latest_block_slot: u64) -> (r: bool)
        ensures
            r == (self.latest_block_slot == Some(latest_block_slot)),
    {
        match self.latest_block_slot {
            Some(s) => s == latest_block_slot,
            None => false,
        }
    }

    /// Builds the cache from the registry at `latest_block_slot`.
    pub fn new(latest_block_slot: u64, validators: &Vec<Validator>) -> (r: SlashingsCache)
        requires
            validators@.len() <= u64::MAX,
        ensures
            r.latest_block_slot == Some(latest_block_slot),
            forall|j: int| 0 <= j < r.slashed_validators@.len()
                ==> (#[trigger] r.slashed_validators@[j]) < validators@.len()
                && validators@[r.slashed_validators@[j] as int].slashed,
            forall|i: int| 0 <= i < validators@.len() && validators@[i].slashed
                ==> r.slashed_validators@.contains(i as u64),
            forall|j: int, l: int| 0 <= j < l < r.slashed_validators@.len()
                ==> r.slashed_validators@[j] < r.slashed_validators@[l],
    {
        let mut slashed: Vec<u64> = Vec::new();
        let mut i: usize = 0;
        while i < validators.len()
            invariant
                i <= validators@.len(),
                validators@.len() <= u64::MAX,
                forall|j: int| 0 <= j < slashed@.len() ==> (#[trigger] slashed@[j]) < i
                    && validators@[slashed@[j] as int].slashed,
                forall|k: int| 0 <= k < i && validators@[k].slashed ==> slashed@.contains(k as u64),
                forall|j: int, l: int| 0 <= j < l < slashed@.len() ==> slashed@[j] < slashed@[l],
            decreases validators@.len() - i,
        {
            if validators.get(i).unwrap().slashed() {
                let ghost prev = slashed@;
                slashed.push(i as u64);
                proof {
                    assert forall|k: int| 0 <= k < i + 1 && validators@[k].slashed implies slashed@
                        .contains(k as u64) by {
                        if k < i {
                            let j = choose|j: int| 0 <= j < prev.len() && prev[j] == k as u64;
                            assert(slashed@[j] == k as u64);
                        } else {
                            assert(slashed@[slashed@.len() - 1] == i as u64);
                        }
                    }
                }
            } else {
                proof {
                    assert forall|k: int| 0 <= k < i + 1 && validators@[k].slashed implies slashed@
                        .contains(k as u64) by {
                        assert(k < i);
                    }
                }
            }
            i = i + 1;
        }
        SlashingsCache { latest_block_slot: Some(latest_block_slot), slashed_validators: slashed }
    }
}

} // verus!
