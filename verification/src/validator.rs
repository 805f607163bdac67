//! A record of the validator registry.
use vstd::prelude::*;

verus! {

/// Number of bytes in a compressed public key.
pub const PUBKEY_LEN: usize = 48;

/// One validator of the registry: its public key as plain bytes, its
/// consensus balances and the epochs that bound its lifecycle.
#[derive(Debug, Clone, PartialEq, Eq)]
pub struct Validator {
    pub pubkey: Vec<u8>,
    pub effective_balance: u64,
    pub slashed: bool,
    pub activation_eligibility_epoch: u64,
    pub activation_epoch: u64,
    pub exit_epoch: u64,
    pub withdrawable_epoch: u64,
}

impl Validator {
    /// A validator record is well-formed when its public key holds exactly
    /// 48 bytes.
    pub open spec fn wf(&self) -> bool {
        self.pubkey@.len() == PUBKEY_LEN
    }

    /// Whether the validator is active at `epoch`: activated at or before
    /// it, and not yet exited.
    pub open spec fn is_active_at_spec(&self, epoch: u64) -> bool {
        self.activation_epoch <= epoch && epoch < self.exit_epoch
    }

    /// Returns `true` iff the validator is active at `epoch`.
    pub fn is_active_at(&self, epoch: u64) -> (r: bool)
        ensures
            r == self.is_active_at_spec(epoch),
    {
        self.activation_epoch <= epoch && epoch < self.exit_epoch
    }

    /// Returns the validator's effective balance.
    pub fn effective_balance(&self) -> (r: u64)
        ensures
            r == self.effective_balance,
    {
        self.effective_balance
    }

    /// Returns whether the validator has been slashed.
    pub fn slashed(&self) -> (r: bool)
        ensures
            r == self.slashed,
    {
        self.slashed
    }

    /// Returns the epoch the validator becomes withdrawable at.
    pub fn withdrawable_epoch(&self) -> (r: u64)
        ensures
            r == self.withdrawable_epoch,
    {
        self.withdrawable_epoch
    }

    /// An explicit copy of the public key bytes.
    pub fn pubkey_copied(&self) -> (r: Vec<u8>)
        ensures
            r@ == self.pubkey@,
    {
        copy_bytes(&self.pubkey)
    }
}

/// An explicit copy of a byte vector.
pub fn copy_bytes(v: &Vec<u8>) -> (r: Vec<u8>)
    ensures
        r@ == v@,
{
    let mut r: Vec<u8> = Vec::new();
    let mut i: usize = 0;
    while i < v.len()
        invariant
            i <= v@.len(),
            r@.len() == i,
            forall|j: int| 0 <= j < i ==> r@[j] == v@[j],
        decreases v@.len() - i,
    {
        r.push(*v.get(i).unwrap());
        i = i + 1;
    }
    proof {
        assert(r@ =~= v@);
    }
    r
}

/// Byte-wise equality of two byte vectors.
pub fn bytes_eq(a: &Vec<u8>, b: &Vec<u8>) -> (r: bool)
    ensures
        r == (a@ == b@),
{
    if a.len() != b.len() {
        assert(a@.len() != b@.len());
        return false;
    }
    let mut i: usize = 0;
    while i < a.len()
        invariant
            i <= a@.len(),
            a@.len() == b@.len(),
            forall|j: int| 0 <= j < i ==> a@[j] == b@[j],
        decreases a@.len() - i,
    {
        if *a.get(i).unwrap() != *b.get(i).unwrap() {
            assert(a@[i as int] != b@[i as int]);
            return false;
        }
        i = i + 1;
    }
    proof {
        assert(a@ =~= b@);
    }
    true
}

} // verus!
