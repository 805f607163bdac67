//! Window behaviour of the circular buffers, the seed derivation, and
//! the fork accessors.
use beacon_state::ArithError;
use beacon_state::BeaconState;
use beacon_state::ChainSpec;
use beacon_state::Domain;
use beacon_state::Error;
use beacon_state::Eth1Data;
use beacon_state::ForkName;
use beacon_state::Hash256;
use beacon_state::Validator;

fn test_spec() -> ChainSpec {
    ChainSpec {
        genesis_slot: 0,
        slots_per_epoch: 8,
        slots_per_historical_root: 64,
        epochs_per_historical_vector: 64,
        epochs_per_slashings_vector: 64,
        epochs_per_sync_committee_period: 256,
        shuffle_round_count: 10,
        min_seed_lookahead: 1,
        max_seed_lookahead: 4,
        target_committee_size: 2,
        max_committees_per_slot: 4,
        sync_committee_size: 4,
        target_aggregators_per_committee: 16,
        max_effective_balance: 32_000_000_000,
        effective_balance_increment: 1_000_000_000,
        min_per_epoch_churn_limit: 4,
        max_per_epoch_activation_churn_limit: 8,
        churn_limit_quotient: 65536,
        min_epochs_to_inactivity_penalty: 4,
        domain_beacon_proposer: 0,
        domain_beacon_attester: 1,
        domain_sync_committee: 7,
        genesis_fork_version: 0,
        altair_fork_epoch: None,
        bellatrix_fork_epoch: None,
        capella_fork_epoch: None,
        deneb_fork_epoch: None,
    }
}

fn zero_eth1() -> Eth1Data {
    Eth1Data {
        deposit_root: Hash256 { bytes: vec![0u8; 32] },
        deposit_count: 0,
        block_hash: Hash256 { bytes: vec![0u8; 32] },
    }
}

fn active_validator(tag: u8) -> Validator {
    Validator {
        pubkey: vec![tag; 48],
        effective_balance: 32_000_000_000,
        slashed: false,
        activation_eligibility_epoch: 0,
        activation_epoch: 0,
        exit_epoch: u64::MAX,
        withdrawable_epoch: u64::MAX,
    }
}

fn state_at_slot(slot: u64, nvals: u8, spec: &ChainSpec) -> BeaconState {
    let mut state = BeaconState::new(0, zero_eth1(), spec);
    state.slot = slot;
    for i in 0..nvals {
        state.validators.push(active_validator(i));
        state.balances.push(32_000_000_000);
    }
    state
}

fn hash_of(tag: u8) -> Hash256 {
    Hash256 { bytes: vec![tag; 32] }
}

#[test]
fn block_root_roundtrip_in_window() {
    let spec = test_spec();
    let mut state = state_at_slot(100, 0, &spec);
    // Window of the 64-entry buffer at slot 100: slots 36..=99.
    for slot in [36u64, 50, 99] {
        let root = hash_of(slot as u8);
        assert!(state.set_block_root(slot, root.clone()).is_ok());
        assert_eq!(*state.get_block_root(slot).unwrap(), root);
    }
}

#[test]
fn block_root_out_of_window() {
    let spec = test_spec();
    let mut state = state_at_slot(100, 0, &spec);
    // The state's own slot is not readable.
    assert_eq!(state.get_block_root(100), Err(Error::SlotOutOfBounds));
    // One slot before the window's start has been overwritten.
    assert_eq!(state.get_block_root(35), Err(Error::SlotOutOfBounds));
    assert_eq!(
        state.set_block_root(100, hash_of(1)),
        Err(Error::SlotOutOfBounds)
    );
}

#[test]
fn state_roots_and_oldest() {
    let spec = test_spec();
    let mut state = state_at_slot(100, 0, &spec);
    let root = hash_of(9);
    assert!(state.set_state_root(36, root.clone()).is_ok());
    assert_eq!(*state.get_state_root(36).unwrap(), root);
    // The oldest root sits exactly at the window's start.
    assert_eq!(*state.get_oldest_state_root().unwrap(), root);
    assert!(state.set_block_root(36, hash_of(7)).is_ok());
    assert_eq!(*state.get_oldest_block_root().unwrap(), hash_of(7));
}

#[test]
fn randao_window() {
    let spec = test_spec();
    // Slot 800 puts the state at epoch 100; the 64-entry window covers
    // epochs 37..=100.
    let mut state = state_at_slot(800, 0, &spec);
    assert!(state.get_randao_mix(37, &spec).is_ok());
    assert!(state.get_randao_mix(100, &spec).is_ok());
    assert_eq!(state.get_randao_mix(36, &spec), Err(Error::EpochOutOfBounds));
    assert_eq!(
        state.get_randao_mix(101, &spec),
        Err(Error::EpochOutOfBounds)
    );
    assert_eq!(state.min_randao_epoch(&spec), 37);
    // Writing reaches one epoch further ahead than reading.
    assert!(state.set_randao_mix(101, hash_of(3), &spec).is_ok());
    assert_eq!(
        state.set_randao_mix(102, hash_of(3), &spec),
        Err(Error::EpochOutOfBounds)
    );
}

#[test]
fn update_randao_mix_accumulates_signature_hash() {
    let spec = test_spec();
    let mut state = state_at_slot(8, 0, &spec);
    // A known digest: SHA-256 of "abc".
    let expected = [
        0xbau8, 0x78, 0x16, 0xbf, 0x8f, 0x01, 0xcf, 0xea, 0x41, 0x41, 0x40, 0xde, 0x5d, 0xae,
        0x22, 0x23, 0xb0, 0x03, 0x61, 0xa3, 0x96, 0x17, 0x7a, 0x9c, 0xb4, 0x10, 0xff, 0x61,
        0xf2, 0x00, 0x15, 0xad,
    ];
    assert_eq!(ethereum_hashing::hash(b"abc"), expected.to_vec());
    // XOR into an all-zero mix leaves exactly the digest.
    let signature = b"abc".to_vec();
    assert!(state.update_randao_mix(1, &signature, &spec).is_ok());
    assert_eq!(state.get_randao_mix(1, &spec).unwrap().bytes, expected.to_vec());
    // Accumulating the same digest again clears the mix: XOR keeps the
    // buffer's whole history, it never overwrites.
    assert!(state.update_randao_mix(1, &signature, &spec).is_ok());
    assert_eq!(state.get_randao_mix(1, &spec).unwrap().bytes, vec![0u8; 32]);
}

#[test]
fn seed_matches_manual_derivation() {
    let spec = test_spec();
    let mut state = state_at_slot(80, 0, &spec);
    for (i, mix) in state.randao_mixes.iter_mut().enumerate() {
        *mix = hash_of(i as u8);
    }
    let epoch = 10u64;
    let seed = state.get_seed(epoch, Domain::BeaconAttester, &spec).unwrap();
    // The mix is read at (epoch + capacity - lookahead - 1) mod capacity.
    let i = (epoch + 64 - 1 - 1) % 64;
    let mut preimage = Vec::new();
    preimage.extend_from_slice(&1u32.to_le_bytes());
    preimage.extend_from_slice(&epoch.to_le_bytes());
    preimage.extend_from_slice(&vec![i as u8; 32]);
    assert_eq!(seed.bytes, ethereum_hashing::hash(&preimage));
}

#[test]
fn slashings_window_and_values() {
    let spec = test_spec();
    let mut state = state_at_slot(800, 0, &spec);
    assert!(state.set_slashings(100, 77, &spec).is_ok());
    assert_eq!(state.get_slashings(100, &spec), Ok(77));
    assert!(state.set_slashings(101, 88, &spec).is_ok());
    // Reading one epoch ahead is not permitted even after a forward
    // write.
    assert_eq!(state.get_slashings(101, &spec), Err(Error::EpochOutOfBounds));
    assert_eq!(state.get_slashings(36, &spec), Err(Error::EpochOutOfBounds));
    assert_eq!(state.get_all_slashings().len(), 64);
}

#[test]
fn epoch_accessors() {
    let spec = test_spec();
    let state = state_at_slot(17, 0, &spec);
    assert_eq!(state.current_epoch(&spec), 2);
    assert_eq!(state.previous_epoch(&spec), 1);
    assert_eq!(state.next_epoch(&spec), Ok(3));
    let genesis = state_at_slot(0, 0, &spec);
    assert_eq!(genesis.previous_epoch(&spec), 0);
}

#[test]
fn fork_name_consistency() {
    let mut spec = test_spec();
    spec.altair_fork_epoch = Some(2);
    let state = state_at_slot(0, 0, &spec);
    assert_eq!(state.fork_name(&spec), Ok(ForkName::Base));
    let late = state_at_slot(16, 0, &spec);
    // A genesis-fork state at an Altair epoch is a consistency fault.
    let err = late.fork_name(&spec).unwrap_err();
    assert_eq!(err.fork_at_slot, ForkName::Altair);
    assert_eq!(err.object_fork, ForkName::Base);
    assert_eq!(spec.fork_name_at_epoch(1), ForkName::Base);
    assert_eq!(spec.fork_name_at_epoch(2), ForkName::Altair);
}

#[test]
fn outstanding_deposits() {
    let spec = test_spec();
    let mut state = state_at_slot(0, 0, &spec);
    state.eth1_data.deposit_count = 5;
    state.eth1_deposit_index = 3;
    assert_eq!(state.get_outstanding_deposit_len(), Ok(2));
    state.eth1_deposit_index = 6;
    assert_eq!(
        state.get_outstanding_deposit_len(),
        Err(Error::InvalidDepositState {
            deposit_count: 5,
            deposit_index: 6
        })
    );
}

#[test]
fn balances_and_validators_accessors() {
    let spec = test_spec();
    let mut state = state_at_slot(0, 4, &spec);
    assert_eq!(state.get_balance(2), Ok(32_000_000_000));
    assert!(state.set_balance(2, 7).is_ok());
    assert_eq!(state.get_balance(2), Ok(7));
    assert_eq!(state.get_balance(9), Err(Error::BalancesOutOfBounds(9)));
    assert_eq!(state.get_effective_balance(1), Ok(32_000_000_000));
    assert_eq!(
        state.get_effective_balance(9),
        Err(Error::UnknownValidator(9))
    );
    assert!(state.get_validator(3).is_ok());
    // Fork-gated accessors refuse the genesis fork.
    assert!(matches!(
        state.get_inactivity_score(0),
        Err(Error::IncorrectStateVariant)
    ));
    assert!(matches!(
        state.current_sync_committee(),
        Err(Error::IncorrectStateVariant)
    ));
    assert!(matches!(
        state.latest_execution_payload_header(),
        Err(Error::IncorrectStateVariant)
    ));
    assert!(matches!(
        state.next_withdrawal_index(),
        Err(Error::IncorrectStateVariant)
    ));
}

#[test]
fn rev_iter_block_roots_descends() {
    let spec = test_spec();
    let mut state = state_at_slot(10, 0, &spec);
    for slot in 0..10u64 {
        state.set_block_root(slot, hash_of(slot as u8)).unwrap();
    }
    let roots = state.rev_iter_block_roots(&spec);
    assert_eq!(roots.len(), 10);
    for (k, (slot, root)) in roots.iter().enumerate() {
        assert_eq!(*slot, 9 - k as u64);
        assert_eq!(root.bytes, vec![*slot as u8; 32]);
    }
}

#[test]
fn is_eligible_and_inactivity_leak() {
    let spec = test_spec();
    let mut state = state_at_slot(80, 1, &spec);
    let val = active_validator(0);
    assert_eq!(state.is_eligible_validator(5, &val), Ok(true));
    let mut exited = active_validator(1);
    exited.exit_epoch = 3;
    exited.slashed = true;
    exited.withdrawable_epoch = 9;
    assert_eq!(state.is_eligible_validator(5, &exited), Ok(true));
    exited.withdrawable_epoch = 6;
    assert_eq!(state.is_eligible_validator(5, &exited), Ok(false));

    state.finalized_checkpoint.epoch = 2;
    assert_eq!(state.is_in_inactivity_leak(9, &spec), Ok(true));
    assert_eq!(state.is_in_inactivity_leak(6, &spec), Ok(false));
    assert_eq!(
        state.is_in_inactivity_leak(1, &spec),
        Err(ArithError::Overflow)
    );
}
