//! The deterministic samplers: the swap-or-not shuffle, proposer
//! selection, and sync-committee selection.
use beacon_state::compute_shuffled_index;
use beacon_state::BeaconState;
use beacon_state::ChainSpec;
use beacon_state::Error;
use beacon_state::Eth1Data;
use beacon_state::ForkName;
use beacon_state::Hash256;
use beacon_state::SyncCommittee;
use beacon_state::Validator;

fn sampling_spec() -> ChainSpec {
    ChainSpec {
        genesis_slot: 0,
        slots_per_epoch: 8,
        slots_per_historical_root: 64,
        epochs_per_historical_vector: 64,
        epochs_per_slashings_vector: 64,
        epochs_per_sync_committee_period: 256,
        shuffle_round_count: 10,
        min_seed_lookahead: 1,
        max_seed_lookahead: 4,
        target_committee_size: 2,
        max_committees_per_slot: 4,
        sync_committee_size: 4,
        target_aggregators_per_committee: 16,
        max_effective_balance: 32_000_000_000,
        effective_balance_increment: 1_000_000_000,
        min_per_epoch_churn_limit: 4,
        max_per_epoch_activation_churn_limit: 8,
        churn_limit_quotient: 65536,
        min_epochs_to_inactivity_penalty: 4,
        domain_beacon_proposer: 0,
        domain_beacon_attester: 1,
        domain_sync_committee: 7,
        genesis_fork_version: 0,
        altair_fork_epoch: None,
        bellatrix_fork_epoch: None,
        capella_fork_epoch: None,
        deneb_fork_epoch: None,
    }
}

fn max_balance_validator(tag: u8) -> Validator {
    Validator {
        pubkey: vec![tag; 48],
        effective_balance: 32_000_000_000,
        slashed: false,
        activation_eligibility_epoch: 0,
        activation_epoch: 0,
        exit_epoch: u64::MAX,
        withdrawable_epoch: u64::MAX,
    }
}

fn registry_state(nvals: u8, slot: u64, spec: &ChainSpec) -> BeaconState {
    let eth1 = Eth1Data {
        deposit_root: Hash256 { bytes: vec![0u8; 32] },
        deposit_count: 0,
        block_hash: Hash256 { bytes: vec![0u8; 32] },
    };
    let mut state = BeaconState::new(0, eth1, spec);
    state.slot = slot;
    for i in 0..nvals {
        state.validators.push(max_balance_validator(i));
        state.balances.push(32_000_000_000);
    }
    state
}

#[test]
fn shuffle_is_a_permutation() {
    let seed = vec![7u8; 32];
    let n = 25usize;
    let mut seen = vec![false; n];
    for i in 0..n {
        let out = compute_shuffled_index(i, n, &seed, 30).unwrap();
        assert!(out < n);
        assert!(!seen[out], "two positions mapped to one output");
        seen[out] = true;
    }
    assert!(seen.iter().all(|&b| b));
}

#[test]
fn shuffle_rejects_bad_inputs() {
    let seed = vec![7u8; 32];
    assert_eq!(compute_shuffled_index(0, 0, &seed, 30), None);
    assert_eq!(compute_shuffled_index(5, 5, &seed, 30), None);
    assert!(compute_shuffled_index(4, 5, &seed, 30).is_some());
}

#[test]
fn shuffle_deterministic_and_seed_sensitive() {
    let seed_a = vec![1u8; 32];
    let seed_b = vec![2u8; 32];
    let a1: Vec<usize> = (0..40).map(|i| compute_shuffled_index(i, 40, &seed_a, 20).unwrap()).collect();
    let a2: Vec<usize> = (0..40).map(|i| compute_shuffled_index(i, 40, &seed_a, 20).unwrap()).collect();
    let b: Vec<usize> = (0..40).map(|i| compute_shuffled_index(i, 40, &seed_b, 20).unwrap()).collect();
    assert_eq!(a1, a2);
    assert_ne!(a1, b);
}

#[test]
fn proposer_with_uniform_max_balance_takes_first_candidate() {
    // A 64-validator registry at maximal effective balance accepts the
    // first sampled candidate: the acceptance test cannot fail at the
    // maximum, so the proposer is the shuffle of position zero.
    let spec = sampling_spec();
    let state = registry_state(64, 3, &spec);
    let slot = 3u64;
    let proposer = state.get_beacon_proposer_index(slot, &spec).unwrap();
    assert!(proposer < 64);
    let seed = state.get_beacon_proposer_seed(slot, &spec).unwrap();
    let expected = compute_shuffled_index(0, 64, &seed, spec.shuffle_round_count).unwrap();
    assert_eq!(proposer, expected);
    // Determinism: a repeated lookup on the unmodified state agrees.
    assert_eq!(state.get_beacon_proposer_index(slot, &spec), Ok(proposer));
}

#[test]
fn proposer_indices_cover_the_epoch() {
    let spec = sampling_spec();
    let state = registry_state(16, 10, &spec);
    let all = state.get_beacon_proposer_indices(&spec).unwrap();
    assert_eq!(all.len(), spec.slots_per_epoch as usize);
    for (k, proposer) in all.iter().enumerate() {
        let slot = state.current_epoch(&spec) * spec.slots_per_epoch + k as u64;
        assert_eq!(state.get_beacon_proposer_index(slot, &spec), Ok(*proposer));
    }
}

#[test]
fn proposer_outside_current_epoch_fails() {
    let spec = sampling_spec();
    let state = registry_state(16, 16, &spec);
    // Slot 3 lies in epoch 0; the state sits in epoch 2.
    assert_eq!(
        state.get_beacon_proposer_index(3, &spec),
        Err(Error::SlotOutOfBounds)
    );
}

#[test]
fn proposer_with_empty_registry_fails() {
    let spec = sampling_spec();
    let state = registry_state(0, 3, &spec);
    assert_eq!(
        state.get_beacon_proposer_index(3, &spec),
        Err(Error::InsufficientValidators)
    );
}

#[test]
fn next_sync_committee_size_membership_determinism() {
    let spec = sampling_spec();
    let state = registry_state(8, 24, &spec);
    let aggregate = vec![0xaau8; 48];
    let committee = state.get_next_sync_committee(&spec, aggregate.clone()).unwrap();
    assert_eq!(committee.pubkeys.len(), spec.sync_committee_size as usize);
    assert_eq!(committee.aggregate_pubkey, aggregate);
    for pk in &committee.pubkeys {
        assert!(state.validators.iter().any(|v| v.pubkey == *pk));
    }
    let again = state.get_next_sync_committee(&spec, aggregate).unwrap();
    assert_eq!(committee, again);
}

#[test]
fn sync_committee_indices_found_through_pubkey_cache() {
    let spec = sampling_spec();
    let mut state = registry_state(8, 24, &spec);
    let committee = state.get_next_sync_committee(&spec, vec![0u8; 48]).unwrap();
    let indices = state.get_sync_committee_indices(&committee).unwrap();
    assert_eq!(indices.len(), committee.pubkeys.len());
    for (k, idx) in indices.iter().enumerate() {
        assert_eq!(state.validators[*idx].pubkey, committee.pubkeys[k]);
    }
}

fn altair_state_with_committees(spec: &ChainSpec) -> BeaconState {
    let mut state = registry_state(8, 24, spec);
    let current = SyncCommittee {
        pubkeys: (0..4u8).map(|i| vec![i; 48]).collect(),
        aggregate_pubkey: vec![1u8; 48],
    };
    let next = SyncCommittee {
        pubkeys: (4..8u8).map(|i| vec![i; 48]).collect(),
        aggregate_pubkey: vec![2u8; 48],
    };
    state.fork_name = ForkName::Altair;
    state.previous_epoch_attestations = None;
    state.current_epoch_attestations = None;
    state.previous_epoch_participation = Some(Vec::new());
    state.current_epoch_participation = Some(Vec::new());
    state.inactivity_scores = Some(Vec::new());
    state.current_sync_committee = Some(current);
    state.next_sync_committee = Some(next);
    state
}

#[test]
fn built_sync_committee_periods() {
    let spec = sampling_spec();
    let state = altair_state_with_committees(&spec);
    // The state sits in period 0: its epoch is far below the period
    // length.
    let current = state.get_built_sync_committee(0, &spec).unwrap().clone();
    assert_eq!(current.aggregate_pubkey, vec![1u8; 48]);
    let next = state.get_built_sync_committee(256, &spec).unwrap().clone();
    assert_eq!(next.aggregate_pubkey, vec![2u8; 48]);
    assert!(matches!(
        state.get_built_sync_committee(512, &spec),
        Err(Error::SyncCommitteeNotKnown { .. })
    ));
}

#[test]
fn sync_committee_for_next_slot_mid_period() {
    let spec = sampling_spec();
    let state = altair_state_with_committees(&spec);
    let committee = state.get_sync_committee_for_next_slot(&spec).unwrap();
    assert_eq!(committee.aggregate_pubkey, vec![1u8; 48]);
}

#[test]
fn sync_duties_report_positions() {
    let spec = sampling_spec();
    let state = altair_state_with_committees(&spec);
    // Validators 0..4 hold the current committee's seats, one each.
    let queried: Vec<u64> = vec![0, 2, 6];
    let duties = state.get_sync_committee_duties(0, &queried, &spec).unwrap();
    assert_eq!(duties.len(), 3);
    let duty0 = duties[0].clone().unwrap();
    assert_eq!(duty0.validator_index, 0);
    assert_eq!(duty0.validator_sync_committee_indices, vec![0]);
    let duty2 = duties[1].clone().unwrap();
    assert_eq!(duty2.validator_sync_committee_indices, vec![2]);
    // Validator 6 sits only in the next committee: no duty at epoch 0.
    assert!(duties[2].is_none());
    // An epoch beyond the next period propagates the lookup's error.
    assert!(matches!(
        state.get_sync_committee_duties(512, &queried, &spec),
        Err(Error::SyncCommitteeNotKnown { .. })
    ));
    // An index outside the registry names the unknown validator.
    assert_eq!(
        state.get_sync_committee_duties(0, &vec![0, 99], &spec),
        Err(Error::UnknownValidator(99))
    );
}

#[test]
fn aggregator_selection_with_tiny_committees() {
    let spec = sampling_spec();
    let mut state = registry_state(16, 16, &spec);
    state.build_all_committee_caches(&spec).unwrap();
    // Committees of two validators under a target of sixteen leave a
    // modulus of one: every member aggregates.
    let slot = state.slot;
    let signature = vec![5u8; 96];
    assert_eq!(state.is_aggregator(slot, 0, &signature, &spec), Ok(true));
}

#[test]
fn proposer_rejection_skips_low_balance_candidates() {
    // With tiny effective balances the acceptance test fails for most
    // random bytes, so the sampler must walk several candidates; the
    // walk is still deterministic for a fixed state.
    let spec = sampling_spec();
    let mut state = registry_state(16, 3, &spec);
    for v in state.validators.iter_mut() {
        v.effective_balance = 1_000_000_000;
    }
    let slot = 3u64;
    let first = state.get_beacon_proposer_index(slot, &spec).unwrap();
    let second = state.get_beacon_proposer_index(slot, &spec).unwrap();
    assert_eq!(first, second);
    assert!(first < 16);
    // The method agrees with the free-standing sampler over the same
    // active set and seed.
    let seed = state.get_beacon_proposer_seed(slot, &spec).unwrap();
    let indices: Vec<usize> = (0..16).collect();
    assert_eq!(state.compute_proposer_index(&indices, &seed, &spec), Ok(first));
}

#[test]
fn active_indices_respect_activation_horizon() {
    let spec = sampling_spec();
    let state = registry_state(4, 3, &spec);
    // Epoch 0 is current; the horizon sits at current + 1 + lookahead.
    assert!(state.get_active_validator_indices(0, &spec).is_ok());
    assert!(state.get_active_validator_indices(4, &spec).is_ok());
    assert_eq!(
        state.get_active_validator_indices(5, &spec),
        Err(Error::EpochOutOfBounds)
    );
    assert_eq!(state.compute_activation_exit_epoch(0, &spec), Ok(5));
}
