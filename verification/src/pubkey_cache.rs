//! The public-key to registry-index cache.
//!
//! The cache grows monotonically: entry `i` is the key of registry entry
//! `i`, keys are only appended in registry order, and an entry is never
//! removed or reassigned.
use vstd::prelude::*;
use crate::validator::{bytes_eq, copy_bytes};

verus! {

/// A monotonically growing map from public key to registry index, held as
/// the keys of the first `len` registry entries in order.
#[derive(Debug, Clone, PartialEq, Eq)]
pub struct PubkeyCache {
    pub keys: Vec<Vec<u8>>,
}

impl Default for PubkeyCache {
    /// The empty cache.
    fn default() -> (r: PubkeyCache)
        ensures
            r.keys@.len() == 0,
    {
        PubkeyCache { keys: Vec::new() }
    }
}

impl PubkeyCache {
    /// The cached keys as byte sequences, in registry order.
    pub open spec fn view(&self) -> Seq<Seq<u8>> {
        self.keys@.map_values(|k: Vec<u8>| k@)
    }

    /// The number of indexes the cache holds.
    pub fn len(&self) -> (r: usize)
        ensures
            r == self@.len(),
    {
        self.keys.len()
    }

    /// Looks up the registry index of `pubkey`: the first cached entry
    /// holding it.
    pub fn get(&self, pubkey: &Vec<u8>) -> (r: Option<usize>)
        ensures
            r is Some <==> exists|i: int| 0 <= i < self@.len() && self@[i] == pubkey@,
            r matches Some(i) ==> i < self@.len() && self@[i as int] == pubkey@ && forall|j: int|
                0 <= j < i ==> self@[j] != pubkey@,
    {
        let mut i: usize = 0;
        while i < self.keys.len()
            invariant
                i <= self.keys@.len(),
                forall|j: int| 0 <= j < i ==> self@[j] != pubkey@,
            decreases self.keys@.len() - i,
        {
            if bytes_eq(self.keys.get(i).unwrap(), pubkey) {
                assert(self@[i as int] == pubkey@);
                return Some(i);
            }
            assert(self@[i as int] != pubkey@);
            i = i + 1;
        }
        None
    }

    /// Inserts `pubkey` at `index`: accepted only when `index` is exactly
    /// the next registry position, which keeps the cache an in-order
    /// prefix of the registry.
    pub fn insert(&mut self, pubkey: Vec<u8>, index: usize) -> (r: bool)
        ensures
            r == (index == old(self)@.len()),
            r ==> final(self)@ == old(self)@.push(pubkey@),
            !r ==> final(self)@ == old(self)@,
    {
        if index == self.keys.len() {
            self.keys.push(pubkey);
            proof {
                assert(self@ =~= old(self)@.push(pubkey@));
            }
            true
        } else {
            false
        }
    }

    /// An explicit copy of the cache.
    pub fn copied(&self) -> (r: PubkeyCache)
        ensures
            r@ == self@,
    {
        let mut keys: Vec<Vec<u8>> = Vec::new();
        let mut i: usize = 0;
        while i < self.keys.len()
            invariant
                i <= self.keys@.len(),
                keys@.len() == i,
                forall|j: int| 0 <= j < i ==> (#[trigger] keys@[j])@ == (self.keys@[j])@,
            decreases self.keys@.len() - i,
        {
            keys.push(copy_bytes(self.keys.get(i).unwrap()));
            i = i + 1;
        }
        let r = PubkeyCache { keys };
        proof {
            assert(r@ =~= self@);
        }
        r
    }
}

} // verus!
