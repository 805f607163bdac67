//! The cache lifecycle, rotation and rebasing, the storage codec
//! framing, the wire fork dispatch, and the Merkle proof generator.
use beacon_state::subtree_root;
use beacon_state::u64_leaf;
use beacon_state::BeaconState;
use beacon_state::BeaconStateHash;
use beacon_state::ChainSpec;
use beacon_state::DecodeError;
use beacon_state::Error;
use beacon_state::Eth1Data;
use beacon_state::ForkName;
use beacon_state::Hash256;
use beacon_state::InclusionListAggregated;
use beacon_state::InclusionListAggregatedEntry;
use beacon_state::InclusionRequest;
use beacon_state::RelativeEpoch;
use beacon_state::ResponseType;
use beacon_state::Validator;
use beacon_state::CURRENT_SYNC_COMMITTEE_INDEX;
use beacon_state::FINALIZED_ROOT_INDEX;

fn cache_spec() -> ChainSpec {
    ChainSpec {
        genesis_slot: 0,
        slots_per_epoch: 8,
        slots_per_historical_root: 64,
        epochs_per_historical_vector: 64,
        epochs_per_slashings_vector: 64,
        epochs_per_sync_committee_period: 256,
        shuffle_round_count: 10,
        min_seed_lookahead: 1,
        max_seed_lookahead: 4,
        target_committee_size: 2,
        max_committees_per_slot: 4,
        sync_committee_size: 4,
        target_aggregators_per_committee: 16,
        max_effective_balance: 32_000_000_000,
        effective_balance_increment: 1_000_000_000,
        min_per_epoch_churn_limit: 4,
        max_per_epoch_activation_churn_limit: 8,
        churn_limit_quotient: 4,
        min_epochs_to_inactivity_penalty: 4,
        domain_beacon_proposer: 0,
        domain_beacon_attester: 1,
        domain_sync_committee: 7,
        genesis_fork_version: 0,
        altair_fork_epoch: None,
        bellatrix_fork_epoch: None,
        capella_fork_epoch: None,
        deneb_fork_epoch: None,
    }
}

fn plain_validator(tag: u8) -> Validator {
    Validator {
        pubkey: vec![tag; 48],
        effective_balance: 32_000_000_000,
        slashed: false,
        activation_eligibility_epoch: 0,
        activation_epoch: 0,
        exit_epoch: u64::MAX,
        withdrawable_epoch: u64::MAX,
    }
}

fn populated_state(nvals: u8, slot: u64, spec: &ChainSpec) -> BeaconState {
    let eth1 = Eth1Data {
        deposit_root: Hash256 { bytes: vec![0u8; 32] },
        deposit_count: 0,
        block_hash: Hash256 { bytes: vec![0u8; 32] },
    };
    let mut state = BeaconState::new(0, eth1, spec);
    state.slot = slot;
    for i in 0..nvals {
        state.validators.push(plain_validator(i));
        state.balances.push(32_000_000_000);
    }
    state
}

#[test]
fn pubkey_cache_completeness() {
    let spec = cache_spec();
    let mut state = populated_state(5, 0, &spec);
    state.update_pubkey_cache().unwrap();
    assert_eq!(state.pubkey_cache.keys.len(), 5);
    assert!(state.pubkey_cache.keys.len() <= state.validators.len());
    for i in 0..5usize {
        let pk = state.validators[i].pubkey.clone();
        assert_eq!(state.get_validator_index_read_only(&pk), Ok(Some(i)));
    }
    // Growth is monotonic: adding a validator extends, never reorders.
    state.validators.push(plain_validator(9));
    state.balances.push(1);
    state.update_pubkey_cache().unwrap();
    assert_eq!(state.pubkey_cache.keys.len(), 6);
    assert_eq!(
        state.get_validator_index_read_only(&vec![9u8; 48]),
        Ok(Some(5))
    );
    assert_eq!(state.get_validator_index(&vec![42u8; 48]), Ok(None));
}

#[test]
fn pubkey_cache_incomplete_lookup_fails() {
    let spec = cache_spec();
    let state = populated_state(3, 0, &spec);
    assert_eq!(
        state.get_validator_index_read_only(&vec![0u8; 48]),
        Err(Error::PubkeyCacheIncomplete {
            cache_len: 0,
            registry_len: 3
        })
    );
}

#[test]
fn committee_cache_with_zero_active_validators_fails() {
    let spec = cache_spec();
    // A registry whose validators only activate far in the future has no
    // active validator at the current epoch.
    let mut state = populated_state(0, 8, &spec);
    for i in 0..4u8 {
        let mut v = plain_validator(i);
        v.activation_epoch = 1000;
        state.validators.push(v);
        state.balances.push(0);
    }
    assert_eq!(
        state.initialize_committee_cache(1, &spec),
        Err(Error::InsufficientValidators)
    );
    assert_eq!(
        state.build_committee_cache(RelativeEpoch::Current, &spec),
        Err(Error::InsufficientValidators)
    );
}

#[test]
fn committees_partition_the_shuffling() {
    let spec = cache_spec();
    let mut state = populated_state(16, 16, &spec);
    state.build_all_committee_caches(&spec).unwrap();
    let epoch = state.current_epoch(&spec);
    let shuffling = state
        .get_cached_active_validator_indices(RelativeEpoch::Current, &spec)
        .unwrap()
        .clone();
    assert_eq!(shuffling.len(), 16);
    let mut walked = Vec::new();
    for k in 0..spec.slots_per_epoch {
        let slot = epoch * spec.slots_per_epoch + k;
        let committees = state.get_beacon_committees_at_slot(slot, &spec).unwrap();
        assert_eq!(
            committees.len() as u64,
            state.get_committee_count_at_slot(slot, &spec).unwrap()
        );
        for c in committees {
            assert_eq!(c.slot, slot);
            walked.extend_from_slice(&c.committee);
        }
    }
    // Slot by slot, the committees walk the shuffling once, in order.
    assert_eq!(walked, shuffling);
    assert_eq!(
        state.get_epoch_committee_count(RelativeEpoch::Current, &spec),
        Ok(8)
    );
}

#[test]
fn attestation_duty_points_back_into_committee() {
    let spec = cache_spec();
    let mut state = populated_state(16, 16, &spec);
    state.build_all_committee_caches(&spec).unwrap();
    for v in 0..16usize {
        let duty = state
            .get_attestation_duties(v, RelativeEpoch::Current, &spec)
            .unwrap()
            .expect("every active validator owes a duty");
        let committee = state.get_beacon_committee(duty.slot, duty.index, &spec).unwrap();
        assert_eq!(committee.committee[duty.committee_position], v);
        assert_eq!(committee.committee.len(), duty.committee_len);
        assert_eq!(duty.committees_at_slot, 1);
    }
    // An unknown validator index has no duty; that is not an error.
    assert_eq!(
        state.get_attestation_duties(99, RelativeEpoch::Current, &spec),
        Ok(None)
    );
}

#[test]
fn advance_caches_rotates_left() {
    let spec = cache_spec();
    let mut state = populated_state(16, 16, &spec);
    state.build_all_committee_caches(&spec).unwrap();
    let old_current = state.committee_caches[1].clone();
    let old_next = state.committee_caches[2].clone();
    state.advance_caches(&spec).unwrap();
    assert_eq!(state.committee_caches[0], old_current);
    assert_eq!(state.committee_caches[1], old_next);
    assert_eq!(state.committee_caches[2].initialized_epoch, None);
    // After stepping the slot into the next epoch, the rotated slots
    // answer for Previous and Current, and only Next needs rebuilding.
    state.slot += spec.slots_per_epoch;
    assert!(state.committee_cache_is_initialized(RelativeEpoch::Previous, &spec));
    assert!(state.committee_cache_is_initialized(RelativeEpoch::Current, &spec));
    assert!(!state.committee_cache_is_initialized(RelativeEpoch::Next, &spec));
    state.build_committee_cache(RelativeEpoch::Next, &spec).unwrap();
    assert!(state.committee_cache_is_initialized(RelativeEpoch::Next, &spec));
    assert_eq!(state.committee_caches[0], old_current);
    assert_eq!(state.committee_caches[1], old_next);
}

#[test]
fn rebase_adopts_base_cache_and_matches_rebuild() {
    let spec = cache_spec();
    let mut base = populated_state(16, 16, &spec);
    base.build_caches(&spec).unwrap();

    // A sibling state one epoch ahead with the same registry and mixes.
    let mut state = populated_state(16, 24, &spec);
    state.rebase_caches_on(&base, &spec).unwrap();
    // The state's Previous epoch is the base's Current epoch.
    assert_eq!(state.committee_caches[0], base.committee_caches[1]);
    assert_eq!(state.committee_caches[1], base.committee_caches[2]);
    // The base's pubkey cache covered more of the registry: adopted.
    assert_eq!(state.pubkey_cache, base.pubkey_cache);

    // An independent full rebuild at the same epoch yields the same
    // cache as the adopted one.
    let mut rebuilt = populated_state(16, 24, &spec);
    rebuilt
        .force_build_committee_cache(RelativeEpoch::Previous, &spec)
        .unwrap();
    assert_eq!(rebuilt.committee_caches[0], state.committee_caches[0]);
}

#[test]
fn rebase_on_adopts_equal_sync_committees() {
    let spec = cache_spec();
    let mut base = populated_state(16, 16, &spec);
    base.build_all_committee_caches(&spec).unwrap();
    let mut state = populated_state(16, 24, &spec);
    state.rebase_on(&base, &spec).unwrap();
    assert_eq!(state.committee_caches[0], base.committee_caches[1]);
}

#[test]
fn total_active_balance_cache_lifecycle() {
    let spec = cache_spec();
    let mut state = populated_state(10, 16, &spec);
    let epoch = state.current_epoch(&spec);
    assert_eq!(
        state.get_total_active_balance(&spec),
        Err(Error::TotalActiveBalanceCacheUninitialized)
    );
    state
        .force_build_total_active_balance_cache_at(epoch, &spec)
        .unwrap();
    assert_eq!(state.get_total_active_balance(&spec), Ok(320_000_000_000));
    assert_eq!(
        state.get_total_active_balance_at_epoch(epoch + 1),
        Err(Error::TotalActiveBalanceCacheInconsistent {
            initialized_epoch: epoch,
            current_epoch: epoch + 1
        })
    );
    assert_eq!(
        state.compute_total_active_balance(epoch + 5, &spec),
        Err(Error::EpochOutOfBounds)
    );
    state.drop_total_active_balance_cache();
    assert_eq!(
        state.get_total_active_balance(&spec),
        Err(Error::TotalActiveBalanceCacheUninitialized)
    );
}

#[test]
fn total_balance_floors_at_one_increment() {
    let spec = cache_spec();
    let mut state = populated_state(3, 0, &spec);
    state.validators[0].effective_balance = 7;
    assert_eq!(
        state.get_total_balance(&vec![0usize], &spec),
        Ok(1_000_000_000)
    );
    assert_eq!(
        state.get_total_balance(&vec![0usize, 1], &spec),
        Ok(32_000_000_007)
    );
    assert_eq!(
        state.get_total_balance(&vec![5usize], &spec),
        Err(Error::UnknownValidator(5))
    );
}

#[test]
fn churn_limits() {
    let spec = cache_spec();
    let mut state = populated_state(32, 16, &spec);
    assert_eq!(
        state.get_churn_limit(&spec),
        Err(Error::CommitteeCacheUninitialized(Some(
            RelativeEpoch::Current
        )))
    );
    state.build_all_committee_caches(&spec).unwrap();
    // 32 active validators over a quotient of 4 beat the minimum of 4.
    assert_eq!(state.get_churn_limit(&spec), Ok(8));
    assert_eq!(state.get_activation_churn_limit(&spec), Ok(8));
}

#[test]
fn exit_and_slashings_caches_build_and_drop() {
    let spec = cache_spec();
    let mut state = populated_state(6, 16, &spec);
    state.validators[2].exit_epoch = 9;
    state.validators[4].slashed = true;
    assert!(!state.exit_cache.initialized);
    state.build_exit_cache(&spec).unwrap();
    assert!(state.exit_cache.initialized);
    assert!(state
        .exit_cache
        .exit_epoch_counts
        .iter()
        .any(|&(e, c)| e == 9 && c == 1));

    assert!(!state.slashings_cache_is_initialized());
    state.build_slashings_cache().unwrap();
    assert!(state.slashings_cache_is_initialized());
    assert_eq!(state.slashings_cache.slashed_validators, vec![4u64]);

    state.build_caches(&spec).unwrap();
    state.drop_all_caches(&spec).unwrap();
    assert!(state.total_active_balance.is_none());
    assert!(state.committee_caches.iter().all(|c| c.initialized_epoch.is_none()));
    assert_eq!(state.pubkey_cache.keys.len(), 0);
    assert!(!state.exit_cache.initialized);
    assert!(!state.slashings_cache_is_initialized());
    assert!(!state.epoch_cache.initialized);
    assert_eq!(
        state.get_base_reward(0),
        Err(Error::EpochCacheUninitialized)
    );
}

#[test]
fn storage_codec_roundtrip() {
    let body = vec![1u8, 2, 3, 4, 5];
    let encoded = beacon_state::ssz_tagged_beacon_state::encode::as_ssz_bytes(ForkName::Capella, &body);
    assert_eq!(encoded[0], 3);
    assert_eq!(&encoded[1..], &body[..]);
    let (fork, decoded) = beacon_state::ssz_tagged_beacon_state::decode::from_ssz_bytes(&encoded).unwrap();
    assert_eq!(fork, ForkName::Capella);
    assert_eq!(decoded, body);
    assert!(!beacon_state::ssz_tagged_beacon_state::encode::is_ssz_fixed_len());
    assert_eq!(beacon_state::ssz_tagged_beacon_state::encode::ssz_fixed_len(), 4);
    assert_eq!(beacon_state::ssz_tagged_beacon_state::encode::ssz_bytes_len(5), 6);
}

#[test]
fn storage_codec_rejects_bad_frames() {
    assert_eq!(
        beacon_state::ssz_tagged_beacon_state::decode::from_ssz_bytes(&Vec::new()),
        Err(DecodeError::OutOfBoundsByte { i: 0 })
    );
    assert_eq!(
        beacon_state::ssz_tagged_beacon_state::decode::from_ssz_bytes(&vec![9u8, 1, 2]),
        Err(DecodeError::InvalidForkByte(9))
    );
}

#[test]
fn wire_decode_dispatches_on_slot_fork() {
    let mut spec = cache_spec();
    spec.altair_fork_epoch = Some(2);
    // A wire image long enough to hold the fixed prefix, with slot 100
    // little-endian at its fixed offset.
    let mut bytes = vec![0u8; 200];
    bytes[40..48].copy_from_slice(&100u64.to_le_bytes());
    assert_eq!(
        BeaconState::from_ssz_bytes(&bytes, &spec),
        Ok(ForkName::Altair)
    );
    bytes[40..48].copy_from_slice(&8u64.to_le_bytes());
    assert_eq!(BeaconState::from_ssz_bytes(&bytes, &spec), Ok(ForkName::Base));
    let short = vec![0u8; 47];
    assert_eq!(
        BeaconState::from_ssz_bytes(&short, &spec),
        Err(DecodeError::InvalidByteLength {
            len: 47,
            expected: 48
        })
    );
}

#[test]
fn merkle_proof_two_supported_leaves_only() {
    let spec = cache_spec();
    let mut state = populated_state(1, 0, &spec);
    state.finalized_checkpoint.epoch = 77;
    let leaves: Vec<Hash256> = (0..25u8).map(|i| Hash256 { bytes: vec![i; 32] }).collect();

    assert_eq!(
        state.compute_merkle_proof(7, &leaves),
        Err(Error::IndexNotSupported(7))
    );

    let proof = state
        .compute_merkle_proof(CURRENT_SYNC_COMMITTEE_INDEX, &leaves)
        .unwrap();
    assert_eq!(proof.len(), 5);
    // Walking the proof from field 22 reproduces the root of all leaves.
    let root = subtree_root(&leaves, 5, 0);
    let mut node = subtree_root(&leaves, 0, 22);
    let mut idx = 22usize;
    for sibling in &proof {
        let mut preimage = Vec::new();
        if idx % 2 == 0 {
            preimage.extend_from_slice(&node.bytes);
            preimage.extend_from_slice(&sibling.bytes);
        } else {
            preimage.extend_from_slice(&sibling.bytes);
            preimage.extend_from_slice(&node.bytes);
        }
        node = Hash256 {
            bytes: ethereum_hashing::hash(&preimage),
        };
        idx /= 2;
    }
    assert_eq!(node, root);

    let finalized = state.compute_merkle_proof(FINALIZED_ROOT_INDEX, &leaves).unwrap();
    assert_eq!(finalized.len(), 6);
    assert_eq!(finalized[0], u64_leaf(77));
}

#[test]
fn historical_batch_copies_buffers() {
    let spec = cache_spec();
    let mut state = populated_state(0, 10, &spec);
    state.set_block_root(5, Hash256 { bytes: vec![5u8; 32] }).unwrap();
    let batch = state.historical_batch();
    assert_eq!(batch.block_roots.len(), 64);
    assert_eq!(batch.block_roots[5], Hash256 { bytes: vec![5u8; 32] });
    assert_eq!(batch.state_roots.len(), 64);
}

#[test]
fn proposer_decision_root_prefers_live_root_on_boundary() {
    let spec = cache_spec();
    // At slot 15 the decision slot of epoch 1 is slot 7.
    let mut state = populated_state(0, 15, &spec);
    state.set_block_root(7, Hash256 { bytes: vec![7u8; 32] }).unwrap();
    let given = Hash256 { bytes: vec![1u8; 32] };
    assert_eq!(
        state.proposer_shuffling_decision_root(given.clone(), &spec),
        Ok(Hash256 { bytes: vec![7u8; 32] })
    );
    // A state sitting exactly on the decision slot answers with the
    // caller's root: the genesis block decides its own shuffling.
    let boundary = populated_state(0, 0, &spec);
    assert_eq!(
        boundary.proposer_shuffling_decision_root(given.clone(), &spec),
        Ok(given)
    );
}

#[test]
fn inclusion_list_and_response_types_hold_data() {
    let entry = InclusionListAggregatedEntry {
        from_address: vec![0xabu8; 20],
        gas_limit: 21000,
        bitlist: vec![0b101],
    };
    let aggregated = InclusionListAggregated {
        slot: 9,
        proposer_index: 3,
        message: vec![entry.clone()],
    };
    assert_eq!(aggregated.message[0], entry);
    let request = InclusionRequest {
        slot: 9,
        proposer_index: 3,
        entries: vec![vec![1, 2, 3]],
    };
    assert_eq!(request.entries.len(), 1);
    assert_ne!(ResponseType::Block, ResponseType::Blob);
    assert_ne!(ResponseType::Blob, ResponseType::CustodyColumn);
}

#[test]
fn beacon_state_hash_converts_both_ways() {
    let h = Hash256 { bytes: vec![3u8; 32] };
    let id = BeaconStateHash::from(h.clone());
    assert_eq!(id.hash, h);
    assert_eq!(Hash256::from(id), h);
}

#[test]
fn latest_block_root_patches_empty_state_root() {
    let spec = cache_spec();
    let mut state = populated_state(0, 1, &spec);
    state.latest_block_header.slot = 0;
    let state_root = Hash256 { bytes: vec![9u8; 32] };
    let patched = state.get_latest_block_root(&state_root);
    // Once the header carries a state root, the patch no longer applies
    // and the root changes accordingly.
    state.latest_block_header.state_root = state_root.clone();
    let direct = state.get_latest_block_root(&Hash256 { bytes: vec![0u8; 32] });
    assert_eq!(patched, direct);
    // And a different patched root changes the outcome.
    let other = state.get_latest_block_root(&Hash256 { bytes: vec![8u8; 32] });
    assert_eq!(other, direct);
    state.latest_block_header.state_root = Hash256 { bytes: vec![0u8; 32] };
    let repatched = state.get_latest_block_root(&Hash256 { bytes: vec![8u8; 32] });
    assert_ne!(repatched, direct);
}

#[test]
fn committee_lookup_error_variants() {
    let spec = cache_spec();
    let mut state = populated_state(16, 16, &spec);
    state.build_all_committee_caches(&spec).unwrap();
    let slot = state.slot;
    // An index past the slot's committee count names no committee.
    assert_eq!(
        state.get_beacon_committee(slot, 99, &spec),
        Err(Error::NoCommittee { slot, index: 99 })
    );
    // A slot whose epoch lies outside Previous/Current/Next cannot name
    // a cache at all.
    assert!(matches!(
        state.get_beacon_committee(80, 0, &spec),
        Err(Error::RelativeEpochError(_))
    ));
}

#[test]
fn churn_with_zero_quotient_is_division_error() {
    let mut spec = cache_spec();
    spec.churn_limit_quotient = 0;
    let mut state = populated_state(8, 16, &spec);
    state.build_all_committee_caches(&spec).unwrap();
    assert_eq!(
        state.get_churn_limit(&spec),
        Err(Error::ArithError(beacon_state::ArithError::DivisionByZero))
    );
}

#[test]
fn inactivity_scores_bounds() {
    let spec = cache_spec();
    let mut state = populated_state(2, 16, &spec);
    state.fork_name = ForkName::Altair;
    state.previous_epoch_attestations = None;
    state.current_epoch_attestations = None;
    state.previous_epoch_participation = Some(Vec::new());
    state.current_epoch_participation = Some(Vec::new());
    state.inactivity_scores = Some(vec![3, 4]);
    state.current_sync_committee = Some(beacon_state::SyncCommittee {
        pubkeys: Vec::new(),
        aggregate_pubkey: vec![0u8; 48],
    });
    state.next_sync_committee = Some(beacon_state::SyncCommittee {
        pubkeys: Vec::new(),
        aggregate_pubkey: vec![0u8; 48],
    });
    assert_eq!(state.get_inactivity_score(1), Ok(4));
    assert!(state.set_inactivity_score(1, 9).is_ok());
    assert_eq!(state.get_inactivity_score(1), Ok(9));
    assert_eq!(
        state.get_inactivity_score(2),
        Err(Error::InactivityScoresOutOfBounds(2))
    );
}
