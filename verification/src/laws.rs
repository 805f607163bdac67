//! The crate-level laws: determinism of the samplers, the RANDAO window,
//! pubkey-cache completeness, rebase equivalence, and failure on an empty
//! active set.
use vstd::prelude::*;
use crate::beacon_state::BeaconState;
use crate::chain_spec::{ChainSpec, Domain};
use crate::committee_cache::{
    active_indices_spec, active_indices_upto, cache_equiv, is_built_for, lemma_built_caches_equal,
    CommitteeCache,
};
use crate::error::Error;
use crate::hashing::hash32_of;
use crate::validator::Validator;

verus! {

/// Determinism of proposer selection: two lookups of the same slot on a
/// fixed, unmodified state return identical results, since each is the
/// one value of the state's proposer function.
pub proof fn lemma_proposer_lookup_deterministic(
    s: &BeaconState,
    slot: u64,
    spec: &ChainSpec,
    r1: Result<usize, Error>,
    r2: Result<usize, Error>,
)
    requires
        r1 == s.beacon_proposer_result(slot, spec),
        r2 == s.beacon_proposer_result(slot, spec),
    ensures
        r1 == r2,
{
}

/// Determinism of sync-committee selection: two samplings of the next
/// epoch's committee on a fixed state return identical member lists.
pub proof fn lemma_next_sync_committee_deterministic(
    s: &BeaconState,
    spec: &ChainSpec,
    r1: Result<Seq<usize>, Error>,
    r2: Result<Seq<usize>, Error>,
)
    requires
        r1 == s.next_sync_committee_indices_result(spec),
        r2 == s.next_sync_committee_indices_result(spec),
    ensures
        r1 == r2,
{
}

/// The RANDAO window law: the exact success condition of
/// [`BeaconState::get_randao_mix`] holds at `epoch` if and only if
/// `current − EPOCHS_PER_HISTORICAL_VECTOR < epoch ≤ current`. Epochs
/// whose upper window bound would leave the 64-bit range are excluded:
/// on those the read fails with the checked-arithmetic error instead.
pub proof fn lemma_randao_mix_window(s: &BeaconState, epoch: u64, spec: &ChainSpec)
    requires
        s.wf(spec),
        epoch + spec.epochs_per_historical_vector <= u64::MAX,
    ensures
        ({
            let current = s.current_epoch_spec(spec);
            let len = spec.epochs_per_historical_vector as int;
            (epoch + len <= u64::MAX && current < epoch + len && epoch <= current) <==> (current
                - len < epoch && epoch <= current)
        }),
{
}

/// Pubkey-cache completeness: once the cache covers the whole registry
/// of pairwise-distinct keys, the key of registry entry `i` stands at
/// cache entry `i` and nowhere earlier, so a lookup returns exactly `i`;
/// and the cache never outgrows the registry.
pub proof fn lemma_pubkey_cache_lookup_complete(s: &BeaconState, i: int)
    requires
        s.pubkey_cache_consistent(),
        s.pubkey_cache@.len() == s.validators@.len(),
        forall|a: int, b: int|
            0 <= a < b < s.validators@.len() ==> (#[trigger] s.validators@[a].pubkey@)
                != (#[trigger] s.validators@[b].pubkey@),
        0 <= i < s.validators@.len(),
    ensures
        s.pubkey_cache@.len() <= s.validators@.len(),
        s.pubkey_cache@[i] == s.validators@[i].pubkey@,
        forall|j: int| 0 <= j < i ==> s.pubkey_cache@[j] != s.validators@[i].pubkey@,
{
    assert forall|j: int| 0 <= j < i implies s.pubkey_cache@[j] != s.validators@[i].pubkey@ by {
        assert(s.pubkey_cache@[j] == s.validators@[j].pubkey@);
        assert(s.validators@[j].pubkey@ != s.validators@[i].pubkey@);
    }
}

/// Rebase equivalence: a committee cache adopted from the base state
/// equals, view for view, the cache that an independent full rebuild at
/// the same epoch on the rebased state yields, whenever the two states
/// agree on the registry and on the seed input of that epoch.
pub proof fn lemma_rebase_equivalence(
    adopted: &CommitteeCache,
    rebuilt: &CommitteeCache,
    s: &BeaconState,
    b: &BeaconState,
    epoch: u64,
    spec: &ChainSpec,
)
    requires
        is_built_for(
            adopted,
            b.validators@,
            epoch,
            hash32_of(b.seed_input_spec(epoch, Domain::BeaconAttester, spec)),
            spec,
        ),
        is_built_for(
            rebuilt,
            s.validators@,
            epoch,
            hash32_of(s.seed_input_spec(epoch, Domain::BeaconAttester, spec)),
            spec,
        ),
        s.validators@ == b.validators@,
        s.seed_input_spec(epoch, Domain::BeaconAttester, spec) == b.seed_input_spec(
            epoch,
            Domain::BeaconAttester,
            spec,
        ),
    ensures
        cache_equiv(adopted, rebuilt),
{
    lemma_built_caches_equal(
        adopted,
        rebuilt,
        s.validators@,
        epoch,
        hash32_of(s.seed_input_spec(epoch, Domain::BeaconAttester, spec)),
        spec,
    );
}

/// With no validator active at `epoch`, the active-index collection is
/// empty, so a committee-cache build at `epoch` fails with the
/// insufficient-validators error instead of sampling forever.
pub proof fn lemma_no_active_validators(vals: Seq<Validator>, epoch: u64)
    requires
        forall|i: int| 0 <= i < vals.len() ==> !(#[trigger] vals[i]).is_active_at_spec(epoch),
    ensures
        active_indices_spec(vals, epoch).len() == 0,
{
    lemma_no_active_upto(vals, epoch, vals.len());
}

/// The inductive core of [`lemma_no_active_validators`].
proof fn lemma_no_active_upto(vals: Seq<Validator>, epoch: u64, k: nat)
    requires
        k <= vals.len(),
        forall|i: int| 0 <= i < vals.len() ==> !(#[trigger] vals[i]).is_active_at_spec(epoch),
    ensures
        active_indices_upto(vals, epoch, k).len() == 0,
    decreases k,
{
    if k > 0 {
        lemma_no_active_upto(vals, epoch, (k - 1) as nat);
    }
}

} // verus!
