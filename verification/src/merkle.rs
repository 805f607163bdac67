//! Merkle roots and proofs over the hashing primitive: the canonical
//! root of a block header, and the state's proof generator, which serves
//! exactly two provable leaves.
use vstd::prelude::*;
use crate::beacon_state::BeaconState;
use crate::error::Error;
use crate::hash256::Hash256;
use crate::hashing::{hash32, hash32_of, int_to_bytes8, int_to_bytes_spec};
use crate::shuffle::append_bytes;
use crate::types::BeaconBlockHeader;

verus! {

/// The number of levels between the state's field roots and its root.
pub const PROOF_DEPTH: usize = 5;

/// The field count of the state rounded up to a power of two: the width
/// of the leaf layer.
pub const NUM_FIELDS_POW2: usize = 32;

/// The generalized index of the current sync committee's root.
pub const CURRENT_SYNC_COMMITTEE_INDEX: usize = 54;

/// The generalized index of the next sync committee's root.
pub const NEXT_SYNC_COMMITTEE_INDEX: usize = 55;

/// The generalized index of the finalized checkpoint's root leaf.
pub const FINALIZED_ROOT_INDEX: usize = 105;

/// A sequence of `n` zero bytes.
pub open spec fn zero_bytes_spec(n: nat) -> Seq<u8> {
    Seq::new(n, |i: int| 0u8)
}

/// The hash-tree leaf of a 64-bit integer: its eight bytes little-endian,
/// zero-padded to 32.
pub open spec fn u64_leaf_spec(x: u64) -> Seq<u8> {
    int_to_bytes_spec(x, 8) + zero_bytes_spec(24)
}

/// An inner tree node: the digest of its children's concatenation.
pub open spec fn node_spec(a: Seq<u8>, b: Seq<u8>) -> Seq<u8> {
    hash32_of(a + b)
}

/// The node of a leaf-padded binary tree at `level` levels above the
/// leaves, `idx` nodes from the left: leaves beyond the given ones are
/// zero.
pub open spec fn tree_node_spec(leaves: Seq<Seq<u8>>, level: nat, idx: nat) -> Seq<u8>
    decreases level,
{
    if level == 0 {
        if idx < leaves.len() {
            leaves[idx as int]
        } else {
            zero_bytes_spec(32)
        }
    } else {
        node_spec(
            tree_node_spec(leaves, (level - 1) as nat, 2 * idx),
            tree_node_spec(leaves, (level - 1) as nat, 2 * idx + 1),
        )
    }
}

/// The sibling of node `q` within its pair.
pub open spec fn sibling_of(q: nat) -> nat {
    if q % 2 == 0 {
        q + 1
    } else {
        (q - 1) as nat
    }
}

/// The hash-tree leaf of a 64-bit integer.
pub fn u64_leaf(x: u64) -> (r: Hash256)
    ensures
        r.wf(),
        r@ == u64_leaf_spec(x),
{
    let mut bytes = int_to_bytes8(x);
    let mut i: usize = 0;
    while i < 24
        invariant
            i <= 24,
            bytes@.len() == 8 + i,
            bytes@.subrange(0, 8) == int_to_bytes_spec(x, 8),
            forall|j: int| 8 <= j < bytes@.len() ==> bytes@[j] == 0u8,
        decreases 24 - i,
    {
        bytes.push(0u8);
        proof {
            assert(bytes@.subrange(0, 8) =~= int_to_bytes_spec(x, 8));
        }
        i = i + 1;
    }
    proof {
        assert(bytes@ =~= u64_leaf_spec(x));
    }
    Hash256::from_bytes(bytes)
}

/// The digest of two nodes' concatenation.
pub(crate) fn hash_pair(a: &Hash256, b: &Hash256) -> (r: Hash256)
    ensures
        r.wf(),
        r@ == node_spec(a@, b@),
{
    let mut preimage = crate::validator::copy_bytes(&a.bytes);
    append_bytes(&mut preimage, &b.bytes);
    crate::hashing::hash32_root(&preimage)
}

/// The views of a vector of hashes.
pub open spec fn hash_views(leaves: Seq<Hash256>) -> Seq<Seq<u8>> {
    leaves.map_values(|h: Hash256| h@)
}

/// Computes the tree node at `level` levels above the given leaves,
/// `idx` nodes from the left.
pub fn subtree_root(leaves: &Vec<Hash256>, level: usize, idx: usize) -> (r: Hash256)
    requires
        level <= PROOF_DEPTH,
        idx < NUM_FIELDS_POW2 * pow2((PROOF_DEPTH - level) as nat),
        forall|i: int| 0 <= i < leaves@.len() ==> (#[trigger] leaves@[i]).wf(),
    ensures
        r.wf(),
        r@ == tree_node_spec(hash_views(leaves@), level as nat, idx as nat),
    decreases level,
{
    if level == 0 {
        if idx < leaves.len() {
            leaves.get(idx).unwrap().copied()
        } else {
            let z = Hash256::zero();
            proof {
                assert(z@ =~= zero_bytes_spec(32));
            }
            z
        }
    } else {
        proof {
            let p = pow2((PROOF_DEPTH - level) as nat);
            let q = pow2((PROOF_DEPTH - (level - 1)) as nat);
            assert(q == 2 * p);
            lemma_pow2_le((PROOF_DEPTH - level) as nat);
            assert(NUM_FIELDS_POW2 * p <= 1024) by (nonlinear_arith)
                requires
                    p <= 32,
            ;
            assert(2 * idx + 1 < NUM_FIELDS_POW2 * q) by (nonlinear_arith)
                requires
                    idx < NUM_FIELDS_POW2 * p,
                    q == 2 * p,
            ;
        }
        let left = subtree_root(leaves, level - 1, 2 * idx);
        let right = subtree_root(leaves, level - 1, 2 * idx + 1);
        hash_pair(&left, &right)
    }
}

/// The powers of two up to the proof depth stay small.
proof fn lemma_pow2_le(k: nat)
    requires
        k <= 5,
    ensures
        pow2(k) <= 32,
{
    reveal_with_fuel(pow2, 7);
    if k == 0 {
    } else if k == 1 {
    } else if k == 2 {
    } else if k == 3 {
    } else if k == 4 {
    } else {
        assert(k == 5);
    }
}

impl BeaconBlockHeader {
    /// The canonical root of the header: the root of its five field
    /// leaves, zero-padded to eight.
    pub open spec fn canonical_root_spec(&self) -> Seq<u8> {
        let l01 = node_spec(u64_leaf_spec(self.slot), u64_leaf_spec(self.proposer_index));
        let l23 = node_spec(self.parent_root@, self.state_root@);
        let l45 = node_spec(self.body_root@, zero_bytes_spec(32));
        let l67 = node_spec(zero_bytes_spec(32), zero_bytes_spec(32));
        node_spec(node_spec(l01, l23), node_spec(l45, l67))
    }

    /// Computes the canonical root of the header.
    pub fn canonical_root(&self) -> (r: Hash256)
        ensures
            r.wf(),
            r@ == self.canonical_root_spec(),
    {
        let zero = Hash256::zero();
        proof {
            assert(zero@ =~= zero_bytes_spec(32));
        }
        let l01 = hash_pair(&u64_leaf(self.slot), &u64_leaf(self.proposer_index));
        let l23 = hash_pair(&self.parent_root, &self.state_root);
        let l45 = hash_pair(&self.body_root, &zero);
        let l67 = hash_pair(&zero, &zero);
        let left = hash_pair(&l01, &l23);
        let right = hash_pair(&l45, &l67);
        hash_pair(&left, &right)
    }
}

impl BeaconState {
    /// The canonical root of the latest block header, with this state's
    /// root patched into it when the header still awaits one: every slot
    /// without a skip needs the patch.
    pub fn get_latest_block_root(&self, current_state_root: &Hash256) -> (r: Hash256)
        ensures
            r.wf(),
            self.latest_block_header.state_root.is_zero_spec() ==> r@ == (BeaconBlockHeader {
                state_root: *current_state_root,
                ..self.latest_block_header
            }).canonical_root_spec(),
            !self.latest_block_header.state_root.is_zero_spec() ==> r@
                == self.latest_block_header.canonical_root_spec(),
    {
        if self.latest_block_header.state_root.is_zero() {
            let patched = BeaconBlockHeader {
                slot: self.latest_block_header.slot,
                proposer_index: self.latest_block_header.proposer_index,
                parent_root: self.latest_block_header.parent_root.copied(),
                state_root: current_state_root.copied(),
                body_root: self.latest_block_header.body_root.copied(),
            };
            let r = patched.canonical_root();
            proof {
                assert(patched.parent_root@ == self.latest_block_header.parent_root@);
                assert(patched.canonical_root_spec() == (BeaconBlockHeader {
                    state_root: *current_state_root,
                    ..self.latest_block_header
                }).canonical_root_spec());
            }
            r
        } else {
            self.latest_block_header.canonical_root()
        }
    }

    /// The field position a supported generalized index names: the two
    /// sync committees and the finalized root, and nothing else.
    pub fn merkle_proof_field_index(generalized_index: usize) -> (r: Result<usize, Error>)
        ensures
            generalized_index == CURRENT_SYNC_COMMITTEE_INDEX ==> r == Ok::<usize, Error>(22usize),
            generalized_index == NEXT_SYNC_COMMITTEE_INDEX ==> r == Ok::<usize, Error>(23usize),
            generalized_index == FINALIZED_ROOT_INDEX ==> r == Ok::<usize, Error>(20usize),
            generalized_index != CURRENT_SYNC_COMMITTEE_INDEX && generalized_index
                != NEXT_SYNC_COMMITTEE_INDEX && generalized_index != FINALIZED_ROOT_INDEX ==> r
                == Err::<usize, Error>(Error::IndexNotSupported(generalized_index)),
    {
        if generalized_index == CURRENT_SYNC_COMMITTEE_INDEX || generalized_index
            == NEXT_SYNC_COMMITTEE_INDEX {
            // Sync committees are top-level fields: strip the inner-node
            // offset of the leaf layer.
            Ok(generalized_index - NUM_FIELDS_POW2)
        } else if generalized_index == FINALIZED_ROOT_INDEX {
            // The finalized root is the right child of the checkpoint
            // field: halve to the field's own index, then strip the
            // offset.
            Ok(generalized_index / 2 - NUM_FIELDS_POW2)
        } else {
            Err(Error::IndexNotSupported(generalized_index))
        }
    }

    /// Generates the Merkle proof of one supported leaf over the given
    /// field roots: the sibling path from the field's leaf to the state
    /// root, preceded by the finalized epoch's leaf when the finalized
    /// root is being proved. Any other index fails with an
    /// unsupported-index error.
    pub fn compute_merkle_proof(&self, generalized_index: usize, leaves: &Vec<Hash256>) -> (r:
        Result<Vec<Hash256>, Error>)
        requires
            forall|i: int| 0 <= i < leaves@.len() ==> (#[trigger] leaves@[i]).wf(),
        ensures
            r is Ok <==> (generalized_index == CURRENT_SYNC_COMMITTEE_INDEX || generalized_index
                == NEXT_SYNC_COMMITTEE_INDEX || generalized_index == FINALIZED_ROOT_INDEX),
            generalized_index != CURRENT_SYNC_COMMITTEE_INDEX && generalized_index
                != NEXT_SYNC_COMMITTEE_INDEX && generalized_index != FINALIZED_ROOT_INDEX ==> r
                == Err::<Vec<Hash256>, Error>(Error::IndexNotSupported(generalized_index)),
            r matches Ok(proof) ==> ({
                let field_index: nat = if generalized_index == CURRENT_SYNC_COMMITTEE_INDEX {
                    22nat
                } else if generalized_index == NEXT_SYNC_COMMITTEE_INDEX {
                    23nat
                } else {
                    20nat
                };
                let offset: int = if generalized_index == FINALIZED_ROOT_INDEX {
                    1
                } else {
                    0
                };
                &&& proof@.len() == PROOF_DEPTH + offset
                &&& (generalized_index == FINALIZED_ROOT_INDEX ==> proof@[0]@ == u64_leaf_spec(
                    self.finalized_checkpoint.epoch,
                ))
                &&& forall|k: int| 0 <= k < PROOF_DEPTH ==> (#[trigger] proof@[k + offset])@
                    == tree_node_spec(
                    hash_views(leaves@),
                    k as nat,
                    sibling_of(field_index / crate::merkle::pow2(k as nat)),
                )
            }),
    {
        let field_index = match Self::merkle_proof_field_index(generalized_index) {
            Ok(i) => i,
            Err(e) => {
                return Err(e);
            },
        };

        let mut proof: Vec<Hash256> = Vec::new();
        let mut cur: usize = field_index;
        let mut k: usize = 0;
        proof {
            assert(pow2(0) == 1);
            vstd::arithmetic::div_mod::lemma_div_basics(field_index as int);
        }
        while k < PROOF_DEPTH
            invariant
                k <= PROOF_DEPTH,
                field_index < NUM_FIELDS_POW2,
                forall|i: int| 0 <= i < leaves@.len() ==> (#[trigger] leaves@[i]).wf(),
                cur as nat == field_index as nat / pow2(k as nat),
                cur < NUM_FIELDS_POW2,
                proof@.len() == k,
                forall|m: int| 0 <= m < k ==> (#[trigger] proof@[m])@ == tree_node_spec(
                    hash_views(leaves@),
                    m as nat,
                    sibling_of(field_index as nat / pow2(m as nat)),
                ),
            decreases PROOF_DEPTH - k,
        {
            let sibling = if cur % 2 == 0 {
                cur + 1
            } else {
                cur - 1
            };
            proof {
                assert(sibling as nat == sibling_of(field_index as nat / pow2(k as nat)));
                let pk = pow2((PROOF_DEPTH - k) as nat);
                lemma_pow2_pos((PROOF_DEPTH - k) as nat);
                assert(NUM_FIELDS_POW2 * pk >= 32) by (nonlinear_arith)
                    requires
                        pk >= 1,
                ;
            }
            let node = subtree_root(leaves, k, sibling);
            proof.push(node);
            proof {
                lemma_pow2_pos(k as nat);
                vstd::arithmetic::div_mod::lemma_div_denominator(
                    field_index as int,
                    pow2(k as nat) as int,
                    2,
                );
                assert(pow2((k + 1) as nat) == pow2(k as nat) * 2);
                vstd::arithmetic::mul::lemma_mul_is_commutative(pow2(k as nat) as int, 2);
            }
            cur = cur / 2;
            k = k + 1;
        }

        if generalized_index == FINALIZED_ROOT_INDEX {
            // Patch in the finalized epoch to complete the proof of the
            // checkpoint's right child.
            let epoch_leaf = u64_leaf(self.finalized_checkpoint.epoch);
            let mut full: Vec<Hash256> = Vec::new();
            full.push(epoch_leaf);
            let mut j: usize = 0;
            while j < proof.len()
                invariant
                    j <= proof@.len(),
                    full@.len() == j + 1,
                    full@[0]@ == u64_leaf_spec(self.finalized_checkpoint.epoch),
                    forall|m: int| 0 <= m < j ==> (#[trigger] full@[m + 1])@ == (proof@[m])@,
                decreases proof@.len() - j,
            {
                full.push(proof.get(j).unwrap().copied());
                j = j + 1;
            }
            Ok(full)
        } else {
            Ok(proof)
        }
    }
}

/// The `k`-th power of two.
pub open spec fn pow2(k: nat) -> nat
    decreases k,
{
    if k == 0 {
        1
    } else {
        2 * pow2((k - 1) as nat)
    }
}

/// Powers of two are positive.
proof fn lemma_pow2_pos(k: nat)
    ensures
        pow2(k) >= 1,
    decreases k,
{
    if k > 0 {
        lemma_pow2_pos((k - 1) as nat);
    }
}

} // verus!
