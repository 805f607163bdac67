//! The three relative epochs a committee cache can be held for.
use vstd::prelude::*;
use crate::error::RelativeEpochError;

verus! {

/// One of the three cached epochs, relative to a state's current epoch.
#[derive(Debug, Clone, Copy, PartialEq, Eq, Structural)]
pub enum RelativeEpoch {
    Previous,
    Current,
    Next,
}

impl RelativeEpoch {
    /// The absolute epoch this relative epoch names, seen from `base`.
    /// At the genesis epoch, Previous saturates to the genesis epoch itself.
    pub open spec fn into_epoch_spec(self, base: u64) -> u64 {
        match self {
            RelativeEpoch::Previous => if base == 0 {
                0u64
            } else {
                (base - 1) as u64
            },
            RelativeEpoch::Current => base,
            RelativeEpoch::Next => (base + 1) as u64,
        }
    }

    /// Returns the absolute epoch this relative epoch names, seen from `base`.
    pub fn into_epoch(self, base: u64) -> (r: u64)
        requires
            self is Next ==> base < u64::MAX,
        ensures
            r == self.into_epoch_spec(base),
    {
        match self {
            RelativeEpoch::Previous => if base == 0 {
                0
            } else {
                base - 1
            },
            RelativeEpoch::Current => base,
            RelativeEpoch::Next => base + 1,
        }
    }

    /// The relative epoch that `other` is, seen from `base`, when it is one
    /// of Previous, Current or Next.
    pub open spec fn from_epoch_spec(base: u64, other: u64) -> Result<RelativeEpoch, RelativeEpochError> {
        if other == base {
            Ok(RelativeEpoch::Current)
        } else if base >= 1 && other == base - 1 {
            Ok(RelativeEpoch::Previous)
        } else if other == base + 1 {
            Ok(RelativeEpoch::Next)
        } else if other < base {
            Err(RelativeEpochError::EpochTooLow { base, other })
        } else {
            Err(RelativeEpochError::EpochTooHigh { base, other })
        }
    }

    /// Classifies `other` relative to `base`, failing outside the
    /// Previous/Current/Next window.
    pub fn from_epoch(base: u64, other: u64) -> (r: Result<RelativeEpoch, RelativeEpochError>)
        ensures
            r == Self::from_epoch_spec(base, other),
    {
        if other == base {
            Ok(RelativeEpoch::Current)
        } else if base >= 1 && other == base - 1 {
            Ok(RelativeEpoch::Previous)
        } else if base < u64::MAX && other == base + 1 {
            Ok(RelativeEpoch::Next)
        } else if other < base {
            Err(RelativeEpochError::EpochTooLow { base, other })
        } else {
            assert(other > base + 1 || base == u64::MAX);
            Err(RelativeEpochError::EpochTooHigh { base, other })
        }
    }

    /// The fixed slot of each relative epoch in the rotating cache array.
    pub open spec fn cache_index_spec(self) -> int {
        match self {
            RelativeEpoch::Previous => 0,
            RelativeEpoch::Current => 1,
            RelativeEpoch::Next => 2,
        }
    }
}


/// Classifying `other` against `base` and mapping the class back yields
/// `other` again.
pub proof fn lemma_from_into_epoch(base: u64, other: u64)
    ensures
        RelativeEpoch::from_epoch_spec(base, other) matches Ok(rel) ==> rel.into_epoch_spec(base)
            == other,
{
}

} // verus!
