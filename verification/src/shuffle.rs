//! The seeded swap-or-not shuffle.
//!
//! The permutation is computed one position at a time: each round derives a
//! pivot from the seed, mirrors the position across it, and a single bit of
//! a second digest decides whether the position swaps. Computing a single
//! permuted position never materialises the full permutation.
use vstd::prelude::*;
use crate::hashing::{hash32, hash32_of, int_to_bytes4, int_to_bytes_spec, u64_from_le_bytes, u64_from_le_spec};
use crate::validator::copy_bytes;

verus! {

/// Largest list the shuffle accepts.
pub const MAX_SHUFFLE_LIST_SIZE: usize = 0x1000000;

/// The preimage whose digest yields a round's pivot: seed then round byte.
pub open spec fn pivot_input_spec(seed: Seq<u8>, round: u8) -> Seq<u8> {
    seed + seq![round]
}

/// The pivot of one round: the first eight digest bytes read
/// little-endian, reduced modulo the list size.
pub open spec fn round_pivot_spec(seed: Seq<u8>, round: u8, n: nat) -> nat
    recommends
        n > 0,
{
    u64_from_le_spec(hash32_of(pivot_input_spec(seed, round))) % n
}

/// The preimage whose digest yields a round's swap bits for a block of 256
/// positions: seed, round byte, then the block number in four bytes.
pub open spec fn source_input_spec(seed: Seq<u8>, round: u8, position: nat) -> Seq<u8> {
    seed + seq![round] + int_to_bytes_spec((position / 256) as u64, 4)
}

/// The swap bit of `position` in one round.
pub open spec fn round_bit_spec(seed: Seq<u8>, round: u8, position: nat) -> bool {
    let source = hash32_of(source_input_spec(seed, round, position));
    let byte = source[((position % 256) / 8) as int];
    ((byte as u64) >> ((position % 8) as u64)) & 1 == 1
}

/// One round of the shuffle applied to position `i` in a list of `n`.
pub open spec fn apply_round_spec(seed: Seq<u8>, round: u8, i: nat, n: nat) -> nat
    recommends
        n > 0,
{
    let pivot = round_pivot_spec(seed, round, n);
    let flip = ((pivot + n - i) % (n as int)) as nat;
    let position = if i > flip {
        i
    } else {
        flip
    };
    if round_bit_spec(seed, round, position) {
        flip
    } else {
        i
    }
}

/// The first `rounds` rounds of the shuffle applied to position `i`.
pub open spec fn shuffle_upto_spec(seed: Seq<u8>, rounds: nat, i: nat, n: nat) -> nat
    decreases rounds,
{
    if rounds == 0 {
        i
    } else {
        apply_round_spec(seed, ((rounds - 1) as nat) as u8, shuffle_upto_spec(seed, (rounds - 1) as nat, i, n), n)
    }
}

/// Where position `index` of a list of `n` ends up under the full shuffle.
pub open spec fn shuffled_index_spec(index: nat, n: nat, seed: Seq<u8>, rounds: u8) -> nat {
    shuffle_upto_spec(seed, rounds as nat, index, n)
}

/// Appends `src` to `dst`.
pub(crate) fn append_bytes(dst: &mut Vec<u8>, src: &Vec<u8>)
    ensures
        final(dst)@ == old(dst)@ + src@,
{
    let mut i: usize = 0;
    while i < src.len()
        invariant
            i <= src@.len(),
            dst@ == old(dst)@ + src@.subrange(0, i as int),
        decreases src@.len() - i,
    {
        dst.push(*src.get(i).unwrap());
        proof {
            assert(old(dst)@ + src@.subrange(0, i as int) + seq![src@[i as int]] =~= old(dst)@
                + src@.subrange(0, i + 1));
        }
        i = i + 1;
    }
    proof {
        assert(src@.subrange(0, src@.len() as int) =~= src@);
    }
}

/// Returns the position that `index` is permuted to by the seeded
/// swap-or-not shuffle over a list of `list_size` positions, or `None` when
/// the list is empty, the index is out of the list, or the list exceeds the
/// size the shuffle is defined for.
pub fn compute_shuffled_index(
    index: usize,
    list_size: usize,
    seed: &Vec<u8>,
    shuffle_round_count: u8,
) -> (r: Option<usize>)
    ensures
        r is Some <==> (list_size > 0 && index < list_size && list_size <= MAX_SHUFFLE_LIST_SIZE
            && list_size <= usize::MAX / 2),
        r matches Some(s) ==> {
            &&& s as nat == shuffled_index_spec(index as nat, list_size as nat, seed@, shuffle_round_count)
            &&& s < list_size
        },
{
    if list_size == 0 || index >= list_size || list_size > MAX_SHUFFLE_LIST_SIZE || list_size
        > usize::MAX / 2 {
        return None;
    }

    let ghost n: nat = list_size as nat;
    let mut cur: usize = index;
    let mut round: u8 = 0;
    while round < shuffle_round_count
        invariant
            0 < list_size <= MAX_SHUFFLE_LIST_SIZE,
            list_size <= usize::MAX / 2,
            round <= shuffle_round_count,
            cur < list_size,
            cur as nat == shuffle_upto_spec(seed@, round as nat, index as nat, list_size as nat),
        decreases shuffle_round_count - round,
    {
        // Pivot digest: seed followed by the round byte.
        let mut pivot_preimage = copy_bytes(seed);
        pivot_preimage.push(round);
        proof {
            assert(pivot_preimage@ =~= pivot_input_spec(seed@, round));
        }
        let pivot_hash = hash32(&pivot_preimage);
        let pivot_u64 = u64_from_le_bytes(&pivot_hash, 0);
        proof {
            assert(pivot_hash@.subrange(0, 8)[0] == pivot_hash@[0]);
            assert(pivot_hash@.subrange(0, 8)[1] == pivot_hash@[1]);
            assert(pivot_hash@.subrange(0, 8)[2] == pivot_hash@[2]);
            assert(pivot_hash@.subrange(0, 8)[3] == pivot_hash@[3]);
            assert(pivot_hash@.subrange(0, 8)[4] == pivot_hash@[4]);
            assert(pivot_hash@.subrange(0, 8)[5] == pivot_hash@[5]);
            assert(pivot_hash@.subrange(0, 8)[6] == pivot_hash@[6]);
            assert(pivot_hash@.subrange(0, 8)[7] == pivot_hash@[7]);
        }
        let pivot = (pivot_u64 % (list_size as u64)) as usize;
        proof {
            assert(pivot as nat == round_pivot_spec(seed@, round, list_size as nat));
        }

        let flip = (pivot + (list_size - cur)) % list_size;
        let position = if cur > flip {
            cur
        } else {
            flip
        };

        // Source digest: seed, round byte, then the 256-position block.
        let mut source_preimage = copy_bytes(seed);
        source_preimage.push(round);
        let block_bytes = int_to_bytes4((position / 256) as u32);
        append_bytes(&mut source_preimage, &block_bytes);
        proof {
            assert(source_preimage@ =~= source_input_spec(seed@, round, position as nat));
        }
        let source = hash32(&source_preimage);
        let byte = *source.get((position % 256) / 8).unwrap();
        let bit = ((byte as u64) >> ((position % 8) as u64)) & 1;

        let next = if bit == 1 {
            flip
        } else {
            cur
        };
        proof {
            assert(next as nat == apply_round_spec(seed@, round, cur as nat, list_size as nat));
            assert(next as nat == shuffle_upto_spec(
                seed@,
                (round + 1) as nat,
                index as nat,
                list_size as nat,
            ));
        }
        cur = next;
        round = round + 1;
    }
    Some(cur)
}

} // verus!
