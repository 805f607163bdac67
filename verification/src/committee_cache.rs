//! The per-epoch committee cache: the shuffled active validator set and the
//! lookups derived from it.
use vstd::prelude::*;
use crate::chain_spec::ChainSpec;
use crate::error::{ArithError, Error};
use crate::hash256::Hash256;
use crate::shuffle::{compute_shuffled_index, shuffled_index_spec, MAX_SHUFFLE_LIST_SIZE};
use crate::validator::Validator;

verus! {

/// The ascending indices of the validators active at `epoch`, among the
/// first `k` registry entries.
pub open spec fn active_indices_upto(vals: Seq<Validator>, epoch: u64, k: nat) -> Seq<usize>
    decreases k,
{
    if k == 0 {
        Seq::empty()
    } else {
        active_indices_upto(vals, epoch, (k - 1) as nat) + if vals[k - 1].is_active_at_spec(
            epoch,
        ) {
            seq![((k - 1) as nat) as usize]
        } else {
            Seq::empty()
        }
    }
}

/// The ascending indices of the validators active at `epoch`.
pub open spec fn active_indices_spec(vals: Seq<Validator>, epoch: u64) -> Seq<usize> {
    active_indices_upto(vals, epoch, vals.len())
}

/// Membership and bounds of the active-index prefix sequence.
pub proof fn lemma_active_indices_upto_props(vals: Seq<Validator>, epoch: u64, k: nat)
    requires
        k <= vals.len(),
        k <= usize::MAX,
    ensures
        forall|j: int| 0 <= j < active_indices_upto(vals, epoch, k).len()
            ==> (#[trigger] active_indices_upto(vals, epoch, k)[j]) < k
            && vals[active_indices_upto(vals, epoch, k)[j] as int].is_active_at_spec(epoch),
        forall|i: int| 0 <= i < k && vals[i].is_active_at_spec(epoch)
            ==> active_indices_upto(vals, epoch, k).contains(i as usize),
    decreases k,
{
    if k > 0 {
        lemma_active_indices_upto_props(vals, epoch, (k - 1) as nat);
        let prev = active_indices_upto(vals, epoch, (k - 1) as nat);
        let cur = active_indices_upto(vals, epoch, k);
        assert forall|j: int| 0 <= j < cur.len() implies (#[trigger] cur[j]) < k
            && vals[cur[j] as int].is_active_at_spec(epoch) by {
            if vals[k - 1].is_active_at_spec(epoch) {
                if j < prev.len() {
                    assert(cur[j] == prev[j]);
                } else {
                    assert(cur[j] == seq![((k - 1) as nat) as usize][j - prev.len()]);
                }
            } else {
                assert(cur =~= prev);
            }
        }
        assert forall|i: int| 0 <= i < k && vals[i].is_active_at_spec(epoch) implies cur.contains(
            i as usize,
        ) by {
            if i < k - 1 {
                let j = choose|j: int| 0 <= j < prev.len() && prev[j] == i as usize;
                assert(cur[j] == i as usize);
            } else {
                assert(cur[cur.len() - 1] == i as usize);
            }
        }
    }
}

/// Collects the indices of the validators active at `epoch`, in ascending
/// registry order.
pub fn get_active_validator_indices(validators: &Vec<Validator>, epoch: u64) -> (r: Vec<usize>)
    ensures
        r@ == active_indices_spec(validators@, epoch),
        forall|j: int| 0 <= j < r@.len() ==> (#[trigger] r@[j]) < validators@.len()
            && validators@[r@[j] as int].is_active_at_spec(epoch),
        forall|i: int| 0 <= i < validators@.len() && validators@[i].is_active_at_spec(epoch)
            ==> r@.contains(i as usize),
        forall|j: int, l: int| 0 <= j < l < r@.len() ==> r@[j] < r@[l],
{
    let mut r: Vec<usize> = Vec::new();
    let mut i: usize = 0;
    while i < validators.len()
        invariant
            i <= validators@.len(),
            r@ == active_indices_upto(validators@, epoch, i as nat),
            forall|j: int| 0 <= j < r@.len() ==> (#[trigger] r@[j]) < i,
            forall|j: int, l: int| 0 <= j < l < r@.len() ==> r@[j] < r@[l],
        decreases validators@.len() - i,
    {
        if validators.get(i).unwrap().is_active_at(epoch) {
            r.push(i);
            proof {
                assert(r@ =~= active_indices_upto(validators@, epoch, (i + 1) as nat));
            }
        } else {
            proof {
                assert(r@ =~= active_indices_upto(validators@, epoch, (i + 1) as nat));
            }
        }
        i = i + 1;
    }
    proof {
        lemma_active_indices_upto_props(validators@, epoch, validators@.len());
    }
    r
}

/// The number of committees each slot of an epoch is split into, for an
/// active set of `active_count`: the active count divided by the slots of
/// an epoch and the target committee size, clamped to at least one and at
/// most the per-slot maximum.
pub open spec fn committee_count_per_slot_spec(active_count: nat, spec: &ChainSpec) -> nat
    recommends
        spec.wf(),
{
    let raw = active_count / (spec.slots_per_epoch as nat) / (spec.target_committee_size as nat);
    let capped = if raw < spec.max_committees_per_slot as nat {
        raw
    } else {
        spec.max_committees_per_slot as nat
    };
    if capped < 1 {
        1
    } else {
        capped
    }
}

/// Computes the committees per slot for an active set of `active_count`.
pub fn get_committee_count_per_slot(active_count: usize, spec: &ChainSpec) -> (r: u64)
    requires
        spec.wf(),
    ensures
        r as nat == committee_count_per_slot_spec(active_count as nat, spec),
        1 <= r,
        r as nat <= committee_cap(active_count as nat),
{
    let raw: u64 = (active_count as u64) / spec.slots_per_epoch / spec.target_committee_size;
    let capped: u64 = if raw < spec.max_committees_per_slot {
        raw
    } else {
        spec.max_committees_per_slot
    };
    let r: u64 = if capped < 1 {
        1
    } else {
        capped
    };
    proof {
        vstd::arithmetic::div_mod::lemma_div_is_ordered_by_denominator(
            active_count as int,
            1,
            spec.slots_per_epoch as int,
        );
        vstd::arithmetic::div_mod::lemma_div_basics(active_count as int);
        let once = active_count as int / spec.slots_per_epoch as int;
        vstd::arithmetic::div_mod::lemma_div_is_ordered_by_denominator(
            once,
            1,
            spec.target_committee_size as int,
        );
        vstd::arithmetic::div_mod::lemma_div_basics(once);
    }
    r
}

/// One more than the active count: an upper bound on the committees per
/// slot that holds even for an empty active set.
pub open spec fn committee_cap(active_count: nat) -> nat {
    active_count + 1
}

/// The committee index within an epoch of committee `committee_index` of
/// `slot`.
pub fn compute_committee_index_in_epoch(
    slot: u64,
    slots_per_epoch: usize,
    committees_per_slot: usize,
    committee_index: usize,
) -> (r: usize)
    requires
        slots_per_epoch > 0,
        (slot as nat % slots_per_epoch as nat) * committees_per_slot + committee_index
            <= usize::MAX,
    ensures
        r as nat == (slot as nat % slots_per_epoch as nat) * committees_per_slot
            + committee_index,
{
    let slot_in_epoch = (slot % (slots_per_epoch as u64)) as usize;
    proof {
        vstd::arithmetic::mul::lemma_mul_is_commutative(
            slot as int % slots_per_epoch as int,
            committees_per_slot as int,
        );
    }
    slot_in_epoch * committees_per_slot + committee_index
}

/// The total number of committees of an epoch.
pub fn epoch_committee_count(committees_per_slot: usize, slots_per_epoch: usize) -> (r: usize)
    requires
        committees_per_slot * slots_per_epoch <= usize::MAX,
    ensures
        r == committees_per_slot * slots_per_epoch,
{
    committees_per_slot * slots_per_epoch
}

/// The half-open range of shuffling positions of committee
/// `index_in_epoch`, out of `epoch_committee_count` near-equal slices of a
/// shuffled list of `shuffling_len`: `None` when the committee index is out
/// of the epoch or a bound would not fit in 64 bits.
pub fn compute_committee_range_in_epoch(
    epoch_committee_count: usize,
    index_in_epoch: usize,
    shuffling_len: usize,
) -> (r: Option<(usize, usize)>)
    ensures
        r is Some <==> epoch_committee_count > 0 && index_in_epoch < epoch_committee_count
            && shuffling_len * (index_in_epoch + 1) <= u64::MAX,
        r matches Some(range) ==> {
            &&& range.0 as nat == shuffling_len as nat * index_in_epoch as nat
                / epoch_committee_count as nat
            &&& range.1 as nat == shuffling_len as nat * (index_in_epoch as nat + 1)
                / epoch_committee_count as nat
            &&& range.0 <= range.1 <= shuffling_len
        },
{
    if epoch_committee_count == 0 || index_in_epoch >= epoch_committee_count {
        return None;
    }
    let next = index_in_epoch as u64 + 1;
    let end_num = match (shuffling_len as u64).checked_mul(next) {
        Some(v) => v,
        None => {
            return None;
        },
    };
    proof {
        vstd::arithmetic::mul::lemma_mul_inequality(
            index_in_epoch as int,
            index_in_epoch as int + 1,
            shuffling_len as int,
        );
        vstd::arithmetic::mul::lemma_mul_is_commutative(index_in_epoch as int, shuffling_len as int);
        vstd::arithmetic::mul::lemma_mul_is_commutative(
            index_in_epoch as int + 1,
            shuffling_len as int,
        );
    }
    let start_num = (shuffling_len as u64) * (index_in_epoch as u64);
    let start = start_num / (epoch_committee_count as u64);
    let end = end_num / (epoch_committee_count as u64);
    proof {
        vstd::arithmetic::div_mod::lemma_div_is_ordered(
            start_num as int,
            end_num as int,
            epoch_committee_count as int,
        );
        // end <= shuffling_len: len * (i + 1) <= len * count, so the
        // quotient by count is at most len.
        vstd::arithmetic::mul::lemma_mul_inequality(
            index_in_epoch as int + 1,
            epoch_committee_count as int,
            shuffling_len as int,
        );
        vstd::arithmetic::mul::lemma_mul_is_commutative(
            epoch_committee_count as int,
            shuffling_len as int,
        );
        vstd::arithmetic::div_mod::lemma_div_multiples_vanish(
            shuffling_len as int,
            epoch_committee_count as int,
        );
        vstd::arithmetic::div_mod::lemma_div_is_ordered(
            end_num as int,
            shuffling_len as int * epoch_committee_count as int,
            epoch_committee_count as int,
        );
    }
    Some((start as usize, end as usize))
}

/// The shuffled active-index list: position `p` of the shuffle holds the
/// active index that the swap-or-not permutation maps `p` to.
pub open spec fn shuffled_active_spec(active: Seq<usize>, seed: Seq<u8>, rounds: u8) -> Seq<usize> {
    Seq::new(
        active.len(),
        |p: int| active[shuffled_index_spec(p as nat, active.len(), seed, rounds) as int],
    )
}

/// The inverse duty index after inserting the first `k` shuffling
/// positions: entry `v` holds the position of validator `v` set last.
pub open spec fn positions_upto(shuffling: Seq<usize>, nvals: nat, k: nat) -> Seq<Option<usize>>
    decreases k,
{
    if k == 0 {
        Seq::new(nvals, |v: int| None::<usize>)
    } else {
        positions_upto(shuffling, nvals, (k - 1) as nat).update(
            shuffling[k - 1] as int,
            Some(((k - 1) as nat) as usize),
        )
    }
}

/// Bounds and consistency of the inverse duty index.
pub proof fn lemma_positions_upto_props(shuffling: Seq<usize>, nvals: nat, k: nat)
    requires
        k <= shuffling.len(),
        k <= usize::MAX,
        forall|p: int| 0 <= p < shuffling.len() ==> (#[trigger] shuffling[p]) < nvals,
    ensures
        positions_upto(shuffling, nvals, k).len() == nvals,
        forall|v: int| 0 <= v < nvals ==> ((#[trigger] positions_upto(shuffling, nvals, k)[v])
            matches Some(p) ==> p < k && shuffling[p as int] == v),
        forall|p: int| 0 <= p < k ==> (#[trigger] positions_upto(shuffling, nvals, k)[shuffling[p] as int]) is Some,
    decreases k,
{
    if k > 0 {
        lemma_positions_upto_props(shuffling, nvals, (k - 1) as nat);
    }
}

/// An immutable snapshot of one epoch's shuffled active validator set: the
/// shuffled indices, the per-validator inverse lookup, and the committee
/// partition parameters.
#[derive(Debug, Clone, PartialEq, Eq)]
pub struct CommitteeCache {
    pub initialized_epoch: Option<u64>,
    pub shuffling: Vec<usize>,
    pub shuffling_positions: Vec<Option<usize>>,
    pub committees_per_slot: u64,
    pub slots_per_epoch: u64,
}

impl Default for CommitteeCache {
    /// The empty, uninitialized cache.
    fn default() -> (r: CommitteeCache)
        ensures
            r.initialized_epoch is None,
            r.wf(),
    {
        CommitteeCache {
            initialized_epoch: None,
            shuffling: Vec::new(),
            shuffling_positions: Vec::new(),
            committees_per_slot: 0,
            slots_per_epoch: 0,
        }
    }
}

impl CommitteeCache {
    /// An uninitialized cache holds nothing; an initialized cache holds a
    /// shuffling whose entries index the inverse lookup, an inverse lookup
    /// consistent with the shuffling, and partition parameters whose
    /// products fit the machine.
    pub open spec fn wf(&self) -> bool {
        match self.initialized_epoch {
            None => {
                &&& self.shuffling@.len() == 0
                &&& self.shuffling_positions@.len() == 0
                &&& self.committees_per_slot == 0
                &&& self.slots_per_epoch == 0
            },
            Some(e) => {
                &&& 1 <= self.committees_per_slot <= 0x10000
                &&& 1 <= self.slots_per_epoch <= 0x10000
                &&& self.committees_per_slot * self.slots_per_epoch <= usize::MAX
                &&& e * self.slots_per_epoch + self.slots_per_epoch <= u64::MAX
                &&& self.shuffling@.len() <= MAX_SHUFFLE_LIST_SIZE
                &&& forall|p: int| 0 <= p < self.shuffling@.len()
                    ==> (#[trigger] self.shuffling@[p]) < self.shuffling_positions@.len()
                &&& forall|v: int| 0 <= v < self.shuffling_positions@.len()
                    ==> ((#[trigger] self.shuffling_positions@[v]) matches Some(p)
                        ==> p < self.shuffling@.len() && self.shuffling@[p as int] == v)
                &&& forall|p: int| 0 <= p < self.shuffling@.len()
                    ==> (#[trigger] self.shuffling_positions@[self.shuffling@[p] as int]) is Some
            },
        }
    }

    /// Returns `true` iff the cache was built for exactly `epoch`.
    pub fn is_initialized_at(&self, epoch: u64) -> (r: bool)
        ensures
            r == (self.initialized_epoch == Some(epoch)),
    {
        match self.initialized_epoch {
            Some(e) => e == epoch,
            None => false,
        }
    }

    /// The shuffled active validator indices the cache was built over.
    pub fn shuffling(&self) -> (r: &Vec<usize>)
        ensures
            r@ == self.shuffling@,
    {
        &self.shuffling
    }

    /// The cached active validator indices, in shuffled order.
    pub fn active_validator_indices(&self) -> (r: &Vec<usize>)
        ensures
            r@ == self.shuffling@,
    {
        &self.shuffling
    }

    /// The number of active validators the cache was built over.
    pub fn active_validator_count(&self) -> (r: usize)
        ensures
            r == self.shuffling@.len(),
    {
        self.shuffling.len()
    }

    /// The committees of each slot of the cached epoch.
    pub fn committees_per_slot(&self) -> (r: u64)
        ensures
            r == self.committees_per_slot,
    {
        self.committees_per_slot
    }

    /// The number of committees of the whole cached epoch.
    pub open spec fn epoch_committee_count_spec(&self) -> nat {
        (self.committees_per_slot * self.slots_per_epoch) as nat
    }

    /// Returns the number of committees of the whole cached epoch.
    pub fn epoch_committee_count(&self) -> (r: usize)
        requires
            self.wf(),
        ensures
            r as nat == self.epoch_committee_count_spec(),
    {
        match self.initialized_epoch {
            Some(_) => (self.committees_per_slot as usize) * (self.slots_per_epoch as usize),
            None => 0,
        }
    }

    /// The first shuffling position of epoch committee `idx`.
    pub open spec fn committee_start(&self, idx: nat) -> nat {
        self.shuffling@.len() * idx / self.epoch_committee_count_spec()
    }

    /// Whether `d` is the duty of the validator standing at shuffling
    /// position `p`: the committee containing `p` names the duty's slot,
    /// committee index and position.
    pub open spec fn duty_for_position_ok(&self, p: nat, d: crate::types::AttestationDuty) -> bool {
        match self.initialized_epoch {
            Some(e) => exists|nth: nat|
                #![trigger self.committee_start(nth)]
                {
                    &&& nth < self.epoch_committee_count_spec()
                    &&& self.committee_start(nth) <= p < self.committee_start(nth + 1)
                    &&& d.slot == e * self.slots_per_epoch + nth / (self.committees_per_slot as nat)
                    &&& d.index == nth % (self.committees_per_slot as nat)
                    &&& d.committee_position == p - self.committee_start(nth)
                    &&& d.committee_len == self.committee_start(nth + 1) - self.committee_start(nth)
                    &&& d.committees_at_slot == self.committees_per_slot
                },
            None => false,
        }
    }

    /// Get the committee of index `index` at `slot`: `None` when the cache
    /// is not built for the slot's epoch or the index is out of the slot.
    pub fn get_beacon_committee(&self, slot: u64, index: u64) -> (r: Option<
        crate::types::BeaconCommittee,
    >)
        requires
            self.wf(),
        ensures
            r is Some <==> (self.initialized_epoch matches Some(e) && slot
                / self.slots_per_epoch == e && index < self.committees_per_slot),
            r matches Some(c) ==> {
                let iie = (slot % self.slots_per_epoch) * self.committees_per_slot + index;
                &&& c.slot == slot
                &&& c.index == index
                &&& c.committee@ == self.shuffling@.subrange(
                    self.committee_start(iie as nat) as int,
                    self.committee_start((iie + 1) as nat) as int,
                )
                &&& self.committee_start(iie as nat) <= self.committee_start((iie + 1) as nat)
                    <= self.shuffling@.len()
            },
    {
        let e = match self.initialized_epoch {
            Some(e) => e,
            None => {
                return None;
            },
        };
        if slot / self.slots_per_epoch != e {
            return None;
        }
        if index >= self.committees_per_slot {
            return None;
        }
        proof {
            lemma_index_in_epoch_bound(
                slot as nat,
                self.slots_per_epoch as nat,
                self.committees_per_slot as nat,
                index as nat,
            );
            vstd::arithmetic::mul::lemma_mul_upper_bound(
                self.committees_per_slot as int,
                0x10000,
                self.slots_per_epoch as int,
                0x10000,
            );
        }
        let iie64 = (slot % self.slots_per_epoch) * self.committees_per_slot + index;
        let count = self.epoch_committee_count();
        let iie = iie64 as usize;
        proof {
            lemma_range_args_fit(self.shuffling@.len(), iie as nat, count as nat);
        }
        let (start, end) = match compute_committee_range_in_epoch(count, iie, self.shuffling.len()) {
            Some(range) => range,
            None => {
                proof {
                    assert(false);
                }
                return None;
            },
        };
        let committee = copy_usize_slice(&self.shuffling, start, end);
        Some(crate::types::BeaconCommittee { slot, index, committee })
    }

    /// Get the attestation duty of `validator_index` in the cached epoch:
    /// `None` when the cache is unbuilt or the validator is not in the
    /// cached active set.
    pub fn get_attestation_duties(&self, validator_index: usize) -> (r: Option<
        crate::types::AttestationDuty,
    >)
        requires
            self.wf(),
        ensures
            r is Some <==> (self.initialized_epoch is Some && validator_index
                < self.shuffling_positions@.len()
                && self.shuffling_positions@[validator_index as int] is Some),
            r matches Some(d) ==> (self.shuffling_positions@[validator_index as int] matches Some(
                pos,
            ) && self.duty_for_position_ok(pos as nat, d)),
    {
        let e = match self.initialized_epoch {
            Some(e) => e,
            None => {
                return None;
            },
        };
        if validator_index >= self.shuffling_positions.len() {
            return None;
        }
        let p = match *self.shuffling_positions.get(validator_index).unwrap() {
            Some(p) => p,
            None => {
                return None;
            },
        };
        let count = self.epoch_committee_count();
        let len = self.shuffling.len();
        proof {
            vstd::arithmetic::mul::lemma_mul_upper_bound(
                self.committees_per_slot as int,
                0x10000,
                self.slots_per_epoch as int,
                0x10000,
            );
            vstd::arithmetic::mul::lemma_mul_strictly_positive(
                self.committees_per_slot as int,
                self.slots_per_epoch as int,
            );
        }
        let mut nth: usize = 0;
        while nth < count
            invariant
                self.wf(),
                self.initialized_epoch == Some(e),
                count as nat == self.epoch_committee_count_spec(),
                1 <= count as int <= 0x100000000,
                len == self.shuffling@.len(),
                p < len,
                nth <= count,
                validator_index < self.shuffling_positions@.len(),
                self.shuffling_positions@[validator_index as int] == Some(p),
                forall|m: nat| m < nth ==> !(#[trigger] self.committee_start(m) <= p
                    < self.committee_start(m + 1)),
            decreases count - nth,
        {
            proof {
                lemma_range_args_fit(self.shuffling@.len(), nth as nat, count as nat);
            }
            let (start, end) = match compute_committee_range_in_epoch(count, nth, len) {
                Some(range) => range,
                None => {
                    proof {
                        assert(false);
                    }
                    return None;
                },
            };
            if start <= p && p < end {
                proof {
                    lemma_nth_fits(nth as nat, self.committees_per_slot as nat, self.slots_per_epoch as nat);
                }
                let slot = e * self.slots_per_epoch + (nth as u64) / self.committees_per_slot;
                let index = (nth as u64) % self.committees_per_slot;
                let d = crate::types::AttestationDuty {
                    slot,
                    index,
                    committee_position: p - start,
                    committee_len: end - start,
                    committees_at_slot: self.committees_per_slot,
                };
                proof {
                    assert(start as nat == self.committee_start(nth as nat));
                    assert(end as nat == self.committee_start(nth as nat + 1));
                    assert(self.duty_for_position_ok(p as nat, d));
                }
                return Some(d);
            }
            nth = nth + 1;
        }
        proof {
            vstd::arithmetic::mul::lemma_mul_is_commutative(len as int, count as int);
            vstd::arithmetic::div_mod::lemma_div_multiples_vanish(len as int, count as int);
            lemma_committee_cover_upto(len as nat, count as nat, p as nat, count as nat);
            let w = choose|w: nat|
                w < count as nat && (#[trigger] ((len as nat) * w / (count as nat))) <= p as nat
                    && (p as nat) < (len as nat) * (w + 1) / (count as nat);
            assert(self.committee_start(w) == (len as nat) * w / (count as nat));
            assert(self.committee_start(w + 1) == (len as nat) * (w + 1) / (count as nat));
            assert(self.committee_start(w) <= p as nat && (p as nat) < self.committee_start(
                w + 1,
            ));
            assert(false);
        }
        None
    }

    /// All committees of the cached epoch, slot by slot, committee index
    /// within slot varying fastest.
    pub fn get_all_beacon_committees(&self) -> (r: Result<
        Vec<crate::types::BeaconCommittee>,
        Error,
    >)
        requires
            self.wf(),
        ensures
            self.initialized_epoch is None ==> r == Err::<Vec<crate::types::BeaconCommittee>, Error>(
                Error::CommitteeCacheUninitialized(None),
            ),
            self.initialized_epoch matches Some(e) ==> (r matches Ok(v) && v@.len()
                == self.epoch_committee_count_spec() && forall|k: nat|
                k < v@.len() ==> self.committee_entry_ok(e, k, #[trigger] v@[k as int])),
    {
        let e = match self.initialized_epoch {
            Some(e) => e,
            None => {
                return Err(Error::CommitteeCacheUninitialized(None));
            },
        };
        let count = self.epoch_committee_count();
        let len = self.shuffling.len();
        proof {
            vstd::arithmetic::mul::lemma_mul_upper_bound(
                self.committees_per_slot as int,
                0x10000,
                self.slots_per_epoch as int,
                0x10000,
            );
        }
        let mut out: Vec<crate::types::BeaconCommittee> = Vec::new();
        let mut k: usize = 0;
        while k < count
            invariant
                self.wf(),
                self.initialized_epoch == Some(e),
                count as nat == self.epoch_committee_count_spec(),
                count as int <= 0x100000000,
                len == self.shuffling@.len(),
                k <= count,
                out@.len() == k,
                forall|m: nat| m < k ==> self.committee_entry_ok(e, m, #[trigger] out@[m as int]),
            decreases count - k,
        {
            proof {
                lemma_range_args_fit(self.shuffling@.len(), k as nat, count as nat);
                lemma_nth_fits(k as nat, self.committees_per_slot as nat, self.slots_per_epoch as nat);
            }
            let (start, end) = match compute_committee_range_in_epoch(count, k, len) {
                Some(range) => range,
                None => {
                    proof {
                        assert(false);
                    }
                    return Err(Error::CommitteeCacheUninitialized(None));
                },
            };
            let slot = e * self.slots_per_epoch + (k as u64) / self.committees_per_slot;
            let index = (k as u64) % self.committees_per_slot;
            let committee = copy_usize_slice(&self.shuffling, start, end);
            let entry = crate::types::BeaconCommittee { slot, index, committee };
            proof {
                assert(start as nat == self.committee_start(k as nat));
                assert(end as nat == self.committee_start(k as nat + 1));
                assert(self.committee_entry_ok(e, k as nat, entry));
            }
            out.push(entry);
            k = k + 1;
        }
        Ok(out)
    }

    /// Whether `c` is committee `k` of the cached epoch `e`.
    pub open spec fn committee_entry_ok(&self, e: u64, k: nat, c: crate::types::BeaconCommittee) -> bool {
        &&& c.slot == e * self.slots_per_epoch + k / (self.committees_per_slot as nat)
        &&& c.index == k % (self.committees_per_slot as nat)
        &&& c.committee@ == self.shuffling@.subrange(
            self.committee_start(k) as int,
            self.committee_start(k + 1) as int,
        )
    }

    /// All committees of `slot`: an error when the cache is unbuilt or was
    /// built for another epoch than the slot's.
    pub fn get_beacon_committees_at_slot(&self, slot: u64) -> (r: Result<
        Vec<crate::types::BeaconCommittee>,
        Error,
    >)
        requires
            self.wf(),
        ensures
            self.initialized_epoch is None ==> r == Err::<Vec<crate::types::BeaconCommittee>, Error>(
                Error::CommitteeCacheUninitialized(None),
            ),
            self.initialized_epoch matches Some(e) ==> {
                if slot / self.slots_per_epoch == e {
                    r matches Ok(v) && v@.len() == self.committees_per_slot && forall|i: nat|
                        i < v@.len() ==> {
                            let iie = (slot % self.slots_per_epoch) * self.committees_per_slot + i;
                            let c = #[trigger] v@[i as int];
                            &&& c.slot == slot
                            &&& c.index == i
                            &&& c.committee@ == self.shuffling@.subrange(
                                self.committee_start(iie as nat) as int,
                                self.committee_start((iie + 1) as nat) as int,
                            )
                        }
                } else {
                    r == Err::<Vec<crate::types::BeaconCommittee>, Error>(
                        Error::NoCommittee { slot, index: 0 },
                    )
                }
            },
    {
        let e = match self.initialized_epoch {
            Some(e) => e,
            None => {
                return Err(Error::CommitteeCacheUninitialized(None));
            },
        };
        if slot / self.slots_per_epoch != e {
            return Err(Error::NoCommittee { slot, index: 0 });
        }
        let mut out: Vec<crate::types::BeaconCommittee> = Vec::new();
        let mut index: u64 = 0;
        while index < self.committees_per_slot
            invariant
                self.wf(),
                self.initialized_epoch == Some(e),
                slot / self.slots_per_epoch == e,
                index <= self.committees_per_slot,
                out@.len() == index,
                forall|i: nat|
                    i < index ==> {
                        let iie = (slot % self.slots_per_epoch) * self.committees_per_slot + i;
                        let c = #[trigger] out@[i as int];
                        &&& c.slot == slot
                        &&& c.index == i
                        &&& c.committee@ == self.shuffling@.subrange(
                            self.committee_start(iie as nat) as int,
                            self.committee_start((iie + 1) as nat) as int,
                        )
                    },
            decreases self.committees_per_slot - index,
        {
            match self.get_beacon_committee(slot, index) {
                Some(c) => {
                    out.push(c);
                },
                None => {
                    proof {
                        assert(false);
                    }
                    return Err(Error::NoCommittee { slot, index });
                },
            }
            index = index + 1;
        }
        Ok(out)
    }
}

/// Copies `v[start..end]` into a fresh vector.
pub(crate) fn copy_usize_slice(v: &Vec<usize>, start: usize, end: usize) -> (r: Vec<usize>)
    requires
        start <= end <= v@.len(),
    ensures
        r@ == v@.subrange(start as int, end as int),
{
    let mut r: Vec<usize> = Vec::new();
    let mut i: usize = start;
    while i < end
        invariant
            start <= i <= end <= v@.len(),
            r@ == v@.subrange(start as int, i as int),
        decreases end - i,
    {
        r.push(*v.get(i).unwrap());
        proof {
            assert(v@.subrange(start as int, i as int) + seq![v@[i as int]] =~= v@.subrange(
                start as int,
                i + 1,
            ));
        }
        i = i + 1;
    }
    r
}

/// The epoch-committee index of a committee of a slot stays under the
/// epoch's committee count.
proof fn lemma_index_in_epoch_bound(slot: nat, spe: nat, cps: nat, index: nat)
    requires
        spe >= 1,
        cps >= 1,
        index < cps,
    ensures
        (slot % spe) * cps + index < cps * spe,
        (slot % spe) * cps + index + 1 <= cps * spe,
{
    let r = slot % spe;
    vstd::arithmetic::div_mod::lemma_mod_bound(slot as int, spe as int);
    vstd::arithmetic::mul::lemma_mul_inequality(r as int, spe as int - 1, cps as int);
    vstd::arithmetic::mul::lemma_mul_is_distributive_sub(cps as int, spe as int, 1);
    vstd::arithmetic::mul::lemma_mul_is_commutative(r as int, cps as int);
    vstd::arithmetic::mul::lemma_mul_is_commutative(spe as int, cps as int);
}

/// The arguments handed to the range computation always fit 64 bits when
/// they come from a well-formed cache.
proof fn lemma_range_args_fit(len: nat, idx: nat, count: nat)
    requires
        len <= MAX_SHUFFLE_LIST_SIZE,
        idx < count,
        count <= 0x100000000,
    ensures
        len * (idx + 1) <= u64::MAX,
{
    vstd::arithmetic::mul::lemma_mul_upper_bound(
        len as int,
        MAX_SHUFFLE_LIST_SIZE as int,
        idx as int + 1,
        0x100000000,
    );
}

/// A committee index under the epoch count divides into a slot offset
/// under the slots per epoch.
proof fn lemma_nth_fits(nth: nat, cps: nat, spe: nat)
    requires
        cps >= 1,
        nth < cps * spe,
    ensures
        nth / cps < spe,
        nth % cps < cps,
{
    vstd::arithmetic::div_mod::lemma_mod_bound(nth as int, cps as int);
    vstd::arithmetic::div_mod::lemma_multiply_divide_lt(nth as int, cps as int, spe as int);
}

/// Every shuffling position below the end of the last committee lies in
/// some committee of the first `k`.
proof fn lemma_committee_cover_upto(len: nat, count: nat, p: nat, k: nat)
    requires
        count >= 1,
        k <= count,
        p < len * k / count,
    ensures
        exists|nth: nat|
            nth < k && (#[trigger] (len * nth / count)) <= p < len * (nth + 1) / count,
    decreases k,
{
    if k == 0 {
        vstd::arithmetic::mul::lemma_mul_by_zero_is_zero(len as int);
        vstd::arithmetic::div_mod::lemma_div_of0(count as int);
        assert(false);
    } else {
        if p < len * ((k - 1) as nat) / count {
            lemma_committee_cover_upto(len, count, p, (k - 1) as nat);
            let nth = choose|nth: nat|
                nth < (k - 1) as nat && (#[trigger] (len * nth / count)) <= p < len * (nth + 1)
                    / count;
            assert(nth < k && len * nth / count <= p < len * (nth + 1) / count);
        } else {
            let nth = (k - 1) as nat;
            assert(len * nth / count <= p);
            assert(p < len * (nth + 1) / count);
        }
    }
}

/// Builds the committee cache of `epoch` over the given registry and seed:
/// collects the validators active at `epoch`, permutes them with the
/// seeded swap-or-not shuffle, and indexes the permutation for duty
/// lookups. Fails on an empty active set, on an active set larger than the
/// shuffle is defined for, and on partition parameters that do not fit the
/// machine.
pub fn build_committee_cache_from_parts(
    validators: &Vec<Validator>,
    epoch: u64,
    seed: &Hash256,
    spec: &ChainSpec,
) -> (r: Result<CommitteeCache, Error>)
    requires
        spec.wf(),
    ensures
        r is Ok <==> build_would_succeed(validators@, epoch, spec),
        active_indices_spec(validators@, epoch).len() == 0 ==> r == Err::<CommitteeCache, Error>(
            Error::InsufficientValidators,
        ),
        r matches Ok(c) ==> {
            &&& c.initialized_epoch == Some(epoch)
            &&& c.slots_per_epoch == spec.slots_per_epoch
            &&& c.committees_per_slot as nat == committee_count_per_slot_spec(
                active_indices_spec(validators@, epoch).len(),
                spec,
            )
            &&& c.shuffling@ == shuffled_active_spec(
                active_indices_spec(validators@, epoch),
                seed@,
                spec.shuffle_round_count,
            )
            &&& c.shuffling_positions@ == positions_upto(
                c.shuffling@,
                validators@.len(),
                c.shuffling@.len(),
            )
            &&& c.wf()
        },
{
    let active = get_active_validator_indices(validators, epoch);
    if active.len() == 0 {
        return Err(Error::InsufficientValidators);
    }
    let committees_per_slot = get_committee_count_per_slot(active.len(), spec);
    proof {
        lemma_cps_bounded(active@.len(), spec);
        vstd::arithmetic::mul::lemma_mul_upper_bound(
            committees_per_slot as int,
            0x10000,
            spec.slots_per_epoch as int,
            0x10000,
        );
    }
    let count64 = committees_per_slot * spec.slots_per_epoch;
    if count64 > usize::MAX as u64 {
        return Err(Error::ArithError(ArithError::Overflow));
    }
    let end_slot_ok = match epoch.checked_mul(spec.slots_per_epoch) {
        Some(s) => s <= u64::MAX - spec.slots_per_epoch,
        None => false,
    };
    if !end_slot_ok {
        return Err(Error::ArithError(ArithError::Overflow));
    }
    if active.len() > MAX_SHUFFLE_LIST_SIZE || active.len() > usize::MAX / 2 {
        return Err(Error::UnableToShuffle);
    }

    let n = active.len();
    let mut shuffling: Vec<usize> = Vec::new();
    let mut p: usize = 0;
    while p < n
        invariant
            n == active@.len(),
            0 < n <= MAX_SHUFFLE_LIST_SIZE,
            n <= usize::MAX / 2,
            p <= n,
            shuffling@.len() == p,
            forall|q: int| 0 <= q < p ==> #[trigger] shuffling@[q] == shuffled_active_spec(
                active@,
                seed@,
                spec.shuffle_round_count,
            )[q],
            forall|q: int| 0 <= q < p ==> (#[trigger] shuffling@[q]) < validators@.len(),
            forall|j: int| 0 <= j < active@.len() ==> (#[trigger] active@[j]) < validators@.len(),
        decreases n - p,
    {
        let s = match compute_shuffled_index(p, n, &seed.bytes, spec.shuffle_round_count) {
            Some(s) => s,
            None => {
                proof {
                    assert(false);
                }
                return Err(Error::UnableToShuffle);
            },
        };
        shuffling.push(*active.get(s).unwrap());
        p = p + 1;
    }
    proof {
        assert(shuffling@ =~= shuffled_active_spec(active@, seed@, spec.shuffle_round_count));
    }

    let nvals = validators.len();
    let mut positions: Vec<Option<usize>> = Vec::new();
    let mut v: usize = 0;
    while v < nvals
        invariant
            v <= nvals,
            positions@.len() == v,
            forall|j: int| 0 <= j < v ==> (#[trigger] positions@[j]) is None,
        decreases nvals - v,
    {
        positions.push(None);
        v = v + 1;
    }
    proof {
        assert(positions@ =~= positions_upto(shuffling@, nvals as nat, 0));
    }
    let mut p2: usize = 0;
    while p2 < shuffling.len()
        invariant
            shuffling@.len() <= MAX_SHUFFLE_LIST_SIZE,
            p2 <= shuffling@.len(),
            positions@.len() == nvals,
            forall|q: int| 0 <= q < shuffling@.len() ==> (#[trigger] shuffling@[q]) < nvals,
            positions@ == positions_upto(shuffling@, nvals as nat, p2 as nat),
        decreases shuffling@.len() - p2,
    {
        let vi = *shuffling.get(p2).unwrap();
        positions.set(vi, Some(p2));
        p2 = p2 + 1;
    }

    let cache = CommitteeCache {
        initialized_epoch: Some(epoch),
        shuffling,
        shuffling_positions: positions,
        committees_per_slot,
        slots_per_epoch: spec.slots_per_epoch,
    };
    proof {
        lemma_positions_upto_props(cache.shuffling@, nvals as nat, cache.shuffling@.len());
    }
    Ok(cache)
}

/// When the cache build of `epoch` succeeds: some validator is active, the
/// active set is small enough to shuffle, and the committee counts and the
/// epoch's slots fit the machine's integers.
pub open spec fn build_would_succeed(vals: Seq<Validator>, epoch: u64, spec: &ChainSpec) -> bool {
    let active_len = active_indices_spec(vals, epoch).len();
    &&& active_len > 0
    &&& active_len <= MAX_SHUFFLE_LIST_SIZE
    &&& active_len <= usize::MAX / 2
    &&& committee_count_per_slot_spec(active_len, spec) * spec.slots_per_epoch <= usize::MAX
    &&& epoch * spec.slots_per_epoch + spec.slots_per_epoch <= u64::MAX
}

/// The committees per slot never exceed the per-slot maximum or one.
proof fn lemma_cps_bounded(active_len: nat, spec: &ChainSpec)
    requires
        spec.wf(),
    ensures
        committee_count_per_slot_spec(active_len, spec) <= 0x10000,
        committee_count_per_slot_spec(active_len, spec) >= 1,
{
}


/// Whether `c` holds exactly what a build of `epoch` over the registry
/// `vals` with `seed` yields: the same epoch tag, partition parameters,
/// shuffling and inverse lookup.
pub open spec fn is_built_for(
    c: &CommitteeCache,
    vals: Seq<Validator>,
    epoch: u64,
    seed: Seq<u8>,
    spec: &ChainSpec,
) -> bool {
    &&& c.initialized_epoch == Some(epoch)
    &&& c.slots_per_epoch == spec.slots_per_epoch
    &&& c.committees_per_slot as nat == committee_count_per_slot_spec(
        active_indices_spec(vals, epoch).len(),
        spec,
    )
    &&& c.shuffling@ == shuffled_active_spec(
        active_indices_spec(vals, epoch),
        seed,
        spec.shuffle_round_count,
    )
    &&& c.shuffling_positions@ == positions_upto(c.shuffling@, vals.len(), c.shuffling@.len())
}

/// Two caches built from equal inputs hold equal contents, field by
/// field, view by view.
pub proof fn lemma_built_caches_equal(
    a: &CommitteeCache,
    b: &CommitteeCache,
    vals: Seq<Validator>,
    epoch: u64,
    seed: Seq<u8>,
    spec: &ChainSpec,
)
    requires
        is_built_for(a, vals, epoch, seed, spec),
        is_built_for(b, vals, epoch, seed, spec),
    ensures
        a.initialized_epoch == b.initialized_epoch,
        a.slots_per_epoch == b.slots_per_epoch,
        a.committees_per_slot == b.committees_per_slot,
        a.shuffling@ == b.shuffling@,
        a.shuffling_positions@ == b.shuffling_positions@,
{
}

impl CommitteeCache {
    /// Builds the committee cache of `epoch` for `state`: the seed is
    /// derived from the state's frozen RANDAO mix under the attester
    /// domain, and the build runs over the state's registry.
    pub fn initialized(state: &crate::beacon_state::BeaconState, epoch: u64, spec: &ChainSpec) -> (r:
        Result<CommitteeCache, Error>)
        requires
            state.wf(spec),
        ensures
            r is Ok <==> (crate::beacon_state::BeaconState::seed_arith_ok(epoch, spec)
                && build_would_succeed(state.validators@, epoch, spec)),
            r matches Ok(c) ==> {
                &&& is_built_for(
                    &c,
                    state.validators@,
                    epoch,
                    crate::hashing::hash32_of(
                        state.seed_input_spec(epoch, crate::chain_spec::Domain::BeaconAttester, spec),
                    ),
                    spec,
                )
                &&& c.wf()
            },
            active_indices_spec(state.validators@, epoch).len() == 0 ==> r == Err::<
                CommitteeCache,
                Error,
            >(Error::InsufficientValidators),
    {
        let probe = get_active_validator_indices(&state.validators, epoch);
        if probe.len() == 0 {
            return Err(Error::InsufficientValidators);
        }
        let seed = match state.get_seed(epoch, crate::chain_spec::Domain::BeaconAttester, spec) {
            Ok(seed) => seed,
            Err(e) => {
                return Err(e);
            },
        };
        build_committee_cache_from_parts(&state.validators, epoch, &seed, spec)
    }
}


/// View-level equality of two caches: same epoch tag, same partition
/// parameters, same shuffling and same inverse lookup.
pub open spec fn cache_equiv(a: &CommitteeCache, b: &CommitteeCache) -> bool {
    &&& a.initialized_epoch == b.initialized_epoch
    &&& a.committees_per_slot == b.committees_per_slot
    &&& a.slots_per_epoch == b.slots_per_epoch
    &&& a.shuffling@ == b.shuffling@
    &&& a.shuffling_positions@ == b.shuffling_positions@
}

impl CommitteeCache {
    /// An explicit copy of the cache.
    pub fn copied(&self) -> (r: CommitteeCache)
        ensures
            cache_equiv(self, &r),
            self.wf() ==> r.wf(),
    {
        let shuffling = copy_usize_slice(&self.shuffling, 0, self.shuffling.len());
        let mut positions: Vec<Option<usize>> = Vec::new();
        let mut i: usize = 0;
        while i < self.shuffling_positions.len()
            invariant
                i <= self.shuffling_positions@.len(),
                positions@.len() == i,
                forall|j: int| 0 <= j < i ==> #[trigger] positions@[j]
                    == self.shuffling_positions@[j],
            decreases self.shuffling_positions@.len() - i,
        {
            positions.push(*self.shuffling_positions.get(i).unwrap());
            i = i + 1;
        }
        let r = CommitteeCache {
            initialized_epoch: self.initialized_epoch,
            shuffling,
            shuffling_positions: positions,
            committees_per_slot: self.committees_per_slot,
            slots_per_epoch: self.slots_per_epoch,
        };
        proof {
            assert(r.shuffling@ =~= self.shuffling@);
            assert(r.shuffling_positions@ =~= self.shuffling_positions@);
        }
        r
    }
}

} // verus!
