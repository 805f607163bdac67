//! The externally supplied chain parameters: buffer capacities, shuffle
//! parameters, balance constants, domain tags, and the fork schedule.
use vstd::prelude::*;
use crate::error::{ArithError, Error};

verus! {

/// The epoch value that stands for "never": an unreachable future epoch.
pub const FAR_FUTURE_EPOCH: u64 = u64::MAX;

/// The names of the fork variants, oldest first.
#[derive(Debug, Clone, Copy, PartialEq, Eq, Structural)]
pub enum ForkName {
    Base,
    Altair,
    Merge,
    Capella,
    Deneb,
}

impl ForkName {
    /// The position of the fork in the schedule, oldest first.
    pub open spec fn ord_spec(self) -> int {
        match self {
            ForkName::Base => 0,
            ForkName::Altair => 1,
            ForkName::Merge => 2,
            ForkName::Capella => 3,
            ForkName::Deneb => 4,
        }
    }

    /// The tag byte of the fork in the storage encoding, oldest fork first.
    pub fn tag_byte(self) -> (r: u8)
        ensures
            r as int == self.ord_spec(),
    {
        match self {
            ForkName::Base => 0u8,
            ForkName::Altair => 1u8,
            ForkName::Merge => 2u8,
            ForkName::Capella => 3u8,
            ForkName::Deneb => 4u8,
        }
    }

    /// The fork named by a storage tag byte, if the byte names one.
    pub fn from_tag_byte(b: u8) -> (r: Option<ForkName>)
        ensures
            r is Some <==> b < 5,
            r matches Some(f) ==> f.ord_spec() == b as int,
    {
        match b {
            0u8 => Some(ForkName::Base),
            1u8 => Some(ForkName::Altair),
            2u8 => Some(ForkName::Merge),
            3u8 => Some(ForkName::Capella),
            4u8 => Some(ForkName::Deneb),
            _ => None,
        }
    }
}

/// The signature domains that seed derivations are tagged with.
#[derive(Debug, Clone, Copy, PartialEq, Eq, Structural)]
pub enum Domain {
    BeaconProposer,
    BeaconAttester,
    SyncCommittee,
}

/// Chain parameters. Capacities and quotients are plain integers; the fork
/// schedule is a set of optional activation epochs, one per fork after the
/// genesis fork.
#[derive(Debug, Clone, PartialEq, Eq)]
pub struct ChainSpec {
    // Time parameters.
    pub genesis_slot: u64,
    pub slots_per_epoch: u64,
    pub slots_per_historical_root: u64,
    pub epochs_per_historical_vector: u64,
    pub epochs_per_slashings_vector: u64,
    pub epochs_per_sync_committee_period: u64,
    // Shuffling and sampling.
    pub shuffle_round_count: u8,
    pub min_seed_lookahead: u64,
    pub max_seed_lookahead: u64,
    pub target_committee_size: u64,
    pub max_committees_per_slot: u64,
    pub sync_committee_size: u64,
    pub target_aggregators_per_committee: u64,
    // Balances.
    pub max_effective_balance: u64,
    pub effective_balance_increment: u64,
    pub min_per_epoch_churn_limit: u64,
    pub max_per_epoch_activation_churn_limit: u64,
    pub churn_limit_quotient: u64,
    pub min_epochs_to_inactivity_penalty: u64,
    // Domain tags.
    pub domain_beacon_proposer: u32,
    pub domain_beacon_attester: u32,
    pub domain_sync_committee: u32,
    // Versioning.
    pub genesis_fork_version: u32,
    // Fork schedule: the epoch each later fork activates at, if scheduled.
    pub altair_fork_epoch: Option<u64>,
    pub bellatrix_fork_epoch: Option<u64>,
    pub capella_fork_epoch: Option<u64>,
    pub deneb_fork_epoch: Option<u64>,
}

impl ChainSpec {
    /// The parameters every operation relies on: positive periods and
    /// capacities small enough to index with a `usize`.
    pub open spec fn wf(&self) -> bool {
        &&& self.slots_per_epoch > 0
        &&& self.slots_per_historical_root > 0
        &&& self.epochs_per_historical_vector > 0
        &&& self.epochs_per_slashings_vector > 0
        &&& self.sync_committee_size > 0
        &&& self.slots_per_historical_root <= usize::MAX
        &&& self.epochs_per_historical_vector <= usize::MAX
        &&& self.epochs_per_slashings_vector <= usize::MAX
        &&& self.sync_committee_size <= usize::MAX
        &&& self.max_committees_per_slot >= 1
        &&& self.target_committee_size >= 1
        &&& self.slots_per_epoch <= 0x10000
        &&& self.max_committees_per_slot <= 0x10000
        &&& self.genesis_slot < u64::MAX
    }

    /// The numeric tag of a signature domain.
    pub open spec fn domain_constant_spec(&self, domain: Domain) -> u32 {
        match domain {
            Domain::BeaconProposer => self.domain_beacon_proposer,
            Domain::BeaconAttester => self.domain_beacon_attester,
            Domain::SyncCommittee => self.domain_sync_committee,
        }
    }

    /// Returns the numeric tag of a signature domain.
    pub fn get_domain_constant(&self, domain: Domain) -> (r: u32)
        ensures
            r == self.domain_constant_spec(domain),
    {
        match domain {
            Domain::BeaconProposer => self.domain_beacon_proposer,
            Domain::BeaconAttester => self.domain_beacon_attester,
            Domain::SyncCommittee => self.domain_sync_committee,
        }
    }

    /// The fork in force at `epoch` under this schedule.
    pub open spec fn fork_at_epoch_spec(&self, epoch: u64) -> ForkName {
        if self.deneb_fork_epoch matches Some(e) && epoch >= e {
            ForkName::Deneb
        } else if self.capella_fork_epoch matches Some(e) && epoch >= e {
            ForkName::Capella
        } else if self.bellatrix_fork_epoch matches Some(e) && epoch >= e {
            ForkName::Merge
        } else if self.altair_fork_epoch matches Some(e) && epoch >= e {
            ForkName::Altair
        } else {
            ForkName::Base
        }
    }

    /// Returns the name of the fork in force at `epoch`.
    pub fn fork_name_at_epoch(&self, epoch: u64) -> (r: ForkName)
        ensures
            r == self.fork_at_epoch_spec(epoch),
    {
        if let Some(e) = self.deneb_fork_epoch {
            if epoch >= e {
                return ForkName::Deneb;
            }
        }
        if let Some(e) = self.capella_fork_epoch {
            if epoch >= e {
                return ForkName::Capella;
            }
        }
        if let Some(e) = self.bellatrix_fork_epoch {
            if epoch >= e {
                return ForkName::Merge;
            }
        }
        if let Some(e) = self.altair_fork_epoch {
            if epoch >= e {
                return ForkName::Altair;
            }
        }
        ForkName::Base
    }

    /// Returns the name of the fork in force at `slot`.
    pub fn fork_name_at_slot(&self, slot: u64) -> (r: ForkName)
        requires
            self.wf(),
        ensures
            r == self.fork_at_epoch_spec((slot / self.slots_per_epoch) as u64),
    {
        self.fork_name_at_epoch(slot / self.slots_per_epoch)
    }

    /// The epoch at which an activation or exit triggered in `epoch` takes
    /// effect: one epoch plus the maximum seed lookahead later.
    pub fn compute_activation_exit_epoch(&self, epoch: u64) -> (r: Result<u64, ArithError>)
        ensures
            epoch + 1 + self.max_seed_lookahead <= u64::MAX ==> r
                == Ok::<u64, ArithError>((epoch + 1 + self.max_seed_lookahead) as u64),
            epoch + 1 + self.max_seed_lookahead > u64::MAX ==> r
                == Err::<u64, ArithError>(ArithError::Overflow),
    {
        match epoch.checked_add(1) {
            Some(e) => match e.checked_add(self.max_seed_lookahead) {
                Some(r) => Ok(r),
                None => Err(ArithError::Overflow),
            },
            None => Err(ArithError::Overflow),
        }
    }

    /// The sync-committee period that `epoch` belongs to.
    pub fn sync_committee_period(&self, epoch: u64) -> (r: Result<u64, Error>)
        ensures
            self.epochs_per_sync_committee_period > 0 ==> r
                == Ok::<u64, Error>((epoch / self.epochs_per_sync_committee_period) as u64),
            self.epochs_per_sync_committee_period == 0 ==> r
                == Err::<u64, Error>(Error::ArithError(ArithError::DivisionByZero)),
    {
        if self.epochs_per_sync_committee_period == 0 {
            Err(Error::ArithError(ArithError::DivisionByZero))
        } else {
            Ok(epoch / self.epochs_per_sync_committee_period)
        }
    }

    /// A spec with the mainnet-style constants and an all-genesis fork
    /// schedule. Tests and callers may override single fields.
    pub fn base_mainnet() -> (r: ChainSpec)
        ensures
            r.wf(),
    {
        ChainSpec {
            genesis_slot: 0,
            slots_per_epoch: 32,
            slots_per_historical_root: 8192,
            epochs_per_historical_vector: 65536,
            epochs_per_slashings_vector: 8192,
            epochs_per_sync_committee_period: 256,
            shuffle_round_count: 90,
            min_seed_lookahead: 1,
            max_seed_lookahead: 4,
            target_committee_size: 128,
            max_committees_per_slot: 64,
            sync_committee_size: 512,
            target_aggregators_per_committee: 16,
            max_effective_balance: 32_000_000_000,
            effective_balance_increment: 1_000_000_000,
            min_per_epoch_churn_limit: 4,
            max_per_epoch_activation_churn_limit: 8,
            churn_limit_quotient: 65536,
            min_epochs_to_inactivity_penalty: 4,
            domain_beacon_proposer: 0,
            domain_beacon_attester: 1,
            domain_sync_committee: 7,
            genesis_fork_version: 0,
            altair_fork_epoch: None,
            bellatrix_fork_epoch: None,
            capella_fork_epoch: None,
            deneb_fork_epoch: None,
        }
    }
}

} // verus!
