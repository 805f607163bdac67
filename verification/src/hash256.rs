//! A 32-byte hash value, the unit of all root and mix bookkeeping.
use vstd::prelude::*;

verus! {

/// Number of bytes in a [`Hash256`].
pub const HASH_LEN: usize = 32;

/// A 32-byte hash. The well-formedness predicate [`Hash256::wf`] pins the
/// length; every constructor establishes it and every operation preserves it.
#[derive(Debug, Clone, PartialEq, Eq)]
pub struct Hash256 {
    pub bytes: Vec<u8>,
}

impl Hash256 {
    /// The byte sequence this hash stands for.
    pub open spec fn view(&self) -> Seq<u8> {
        self.bytes@
    }

    /// A hash is well-formed when it holds exactly 32 bytes.
    pub open spec fn wf(&self) -> bool {
        self.bytes@.len() == HASH_LEN
    }

    /// The all-zero hash.
    pub fn zero() -> (r: Hash256)
        ensures
            r.wf(),
            forall|i: int| 0 <= i < HASH_LEN ==> r@[i] == 0u8,
    {
        let mut bytes: Vec<u8> = Vec::new();
        let mut i: usize = 0;
        while i < HASH_LEN
            invariant
                bytes@.len() == i,
                i <= HASH_LEN,
                forall|j: int| 0 <= j < i ==> bytes@[j] == 0u8,
            decreases HASH_LEN - i,
        {
            bytes.push(0u8);
            i = i + 1;
        }
        Hash256 { bytes }
    }

    /// Whether every byte is zero.
    pub open spec fn is_zero_spec(&self) -> bool {
        forall|i: int| 0 <= i < self@.len() ==> self@[i] == 0u8
    }

    /// Returns `true` iff every byte of the hash is zero.
    pub fn is_zero(&self) -> (r: bool)
        ensures
            r == self.is_zero_spec(),
    {
        let mut i: usize = 0;
        while i < self.bytes.len()
            invariant
                i <= self.bytes@.len(),
                forall|j: int| 0 <= j < i ==> self.bytes@[j] == 0u8,
            decreases self.bytes@.len() - i,
        {
            if *self.bytes.get(i).unwrap() != 0u8 {
                assert(self@[i as int] != 0u8);
                return false;
            }
            i = i + 1;
        }
        true
    }

    /// Builds a hash from a vector that must hold exactly 32 bytes.
    pub fn from_bytes(bytes: Vec<u8>) -> (r: Hash256)
        requires
            bytes@.len() == HASH_LEN,
        ensures
            r.wf(),
            r@ == bytes@,
    {
        Hash256 { bytes }
    }

    /// Byte-wise equality.
    pub fn eq_bytes(&self, other: &Hash256) -> (r: bool)
        ensures
            r == (self@ == other@),
    {
        if self.bytes.len() != other.bytes.len() {
            assert(self@.len() != other@.len());
            return false;
        }
        let mut i: usize = 0;
        while i < self.bytes.len()
            invariant
                i <= self.bytes@.len(),
                self.bytes@.len() == other.bytes@.len(),
                forall|j: int| 0 <= j < i ==> self.bytes@[j] == other.bytes@[j],
            decreases self.bytes@.len() - i,
        {
            if *self.bytes.get(i).unwrap() != *other.bytes.get(i).unwrap() {
                return false;
            }
            i = i + 1;
        }
        proof {
            assert(self@ =~= other@);
        }
        true
    }

    /// The byte-wise XOR of two hashes, as a sequence-level function.
    pub open spec fn xor_spec(a: Seq<u8>, b: Seq<u8>) -> Seq<u8> {
        Seq::new(a.len(), |i: int| a[i] ^ b[i])
    }

    /// Byte-wise XOR with another hash of the same length.
    pub fn xor(&self, other: &Hash256) -> (r: Hash256)
        requires
            self.wf(),
            other.wf(),
        ensures
            r.wf(),
            r@ == Self::xor_spec(self@, other@),
    {
        let mut bytes: Vec<u8> = Vec::new();
        let mut i: usize = 0;
        while i < self.bytes.len()
            invariant
                i <= self.bytes@.len(),
                self.bytes@.len() == HASH_LEN,
                other.bytes@.len() == HASH_LEN,
                bytes@.len() == i,
                forall|j: int| 0 <= j < i ==> bytes@[j] == (self.bytes@[j] ^ other.bytes@[j]),
            decreases self.bytes@.len() - i,
        {
            let x = *self.bytes.get(i).unwrap();
            let y = *other.bytes.get(i).unwrap();
            bytes.push(x ^ y);
            i = i + 1;
        }
        let r = Hash256 { bytes };
        proof {
            assert(r@ =~= Self::xor_spec(self@, other@));
        }
        r
    }

    /// An explicit copy of the hash.
    pub fn copied(&self) -> (r: Hash256)
        ensures
            r@ == self@,
            r.wf() == self.wf(),
    {
        let mut bytes: Vec<u8> = Vec::new();
        let mut i: usize = 0;
        while i < self.bytes.len()
            invariant
                i <= self.bytes@.len(),
                bytes@.len() == i,
                forall|j: int| 0 <= j < i ==> bytes@[j] == self.bytes@[j],
            decreases self.bytes@.len() - i,
        {
            bytes.push(*self.bytes.get(i).unwrap());
            i = i + 1;
        }
        let r = Hash256 { bytes };
        proof {
            assert(r@ =~= self@);
        }
        r
    }
}


/// A hash value known to identify a state, as a distinct type.
#[derive(Debug, Clone, PartialEq, Eq)]
pub struct BeaconStateHash {
    pub hash: Hash256,
}

impl From<Hash256> for BeaconStateHash {
    /// Wraps a raw hash as a state identifier.
    fn from(hash: Hash256) -> (r: BeaconStateHash)
        ensures
            r == (BeaconStateHash { hash }),
    {
        BeaconStateHash { hash }
    }
}

impl vstd::std_specs::convert::FromSpecImpl<Hash256> for BeaconStateHash {
    open spec fn obeys_from_spec() -> bool {
        true
    }

    open spec fn from_spec(hash: Hash256) -> BeaconStateHash {
        BeaconStateHash { hash }
    }
}

impl From<BeaconStateHash> for Hash256 {
    /// Unwraps a state identifier to its raw hash.
    fn from(state_hash: BeaconStateHash) -> (r: Hash256)
        ensures
            r == state_hash.hash,
    {
        state_hash.hash
    }
}

impl vstd::std_specs::convert::FromSpecImpl<BeaconStateHash> for Hash256 {
    open spec fn obeys_from_spec() -> bool {
        true
    }

    open spec fn from_spec(state_hash: BeaconStateHash) -> Hash256 {
        state_hash.hash
    }
}

} // verus!
