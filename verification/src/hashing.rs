//! The 32-byte hashing primitive and the little-endian integer encodings
//! used to build hash preimages.
use vstd::prelude::*;
use crate::hash256::Hash256;

verus! {

/// The digest that the outside hash primitive returns for `input`.
///
/// The digest is a pure function of the input bytes alone; its value is not
/// restated here. [`hash32`] is the only place it is produced.
pub uninterp spec fn hash32_of(input: Seq<u8>) -> Seq<u8>;

/// Relies on `ethereum_hashing::hash`: the 32-byte digest of `input`,
/// a function of the input bytes alone.
#[verifier::external_body]
pub(crate) fn hash32(input: &Vec<u8>) -> (r: Vec<u8>)
    ensures
        r@ == hash32_of(input@),
        r@.len() == 32,
{
    ethereum_hashing::hash(input.as_slice())
}

/// Computes the digest of `input` as a [`Hash256`].
pub(crate) fn hash32_root(input: &Vec<u8>) -> (r: Hash256)
    ensures
        r@ == hash32_of(input@),
        r.wf(),
{
    let bytes = hash32(input);
    Hash256::from_bytes(bytes)
}

/// The `i`-th power of 256.
pub open spec fn pow256(i: nat) -> nat
    decreases i,
{
    if i == 0 {
        1
    } else {
        256 * pow256((i - 1) as nat)
    }
}

/// The little-endian encoding of the low `n` bytes of `x`: byte `i` is
/// the `i`-th base-256 digit.
pub open spec fn int_to_bytes_spec(x: u64, n: nat) -> Seq<u8> {
    Seq::new(n, |i: int| ((x as nat) / pow256(i as nat) % 256) as u8)
}

/// The concrete values of the first eight powers of 256.
proof fn lemma_pow256_values()
    ensures
        pow256(0) == 1,
        pow256(1) == 0x100,
        pow256(2) == 0x10000,
        pow256(3) == 0x1000000,
        pow256(4) == 0x100000000,
        pow256(5) == 0x10000000000,
        pow256(6) == 0x1000000000000,
        pow256(7) == 0x100000000000000,
{
    reveal_with_fuel(pow256, 9);
}

/// The little-endian encoding of `x` in four bytes.
pub fn int_to_bytes4(x: u32) -> (r: Vec<u8>)
    ensures
        r@ == int_to_bytes_spec(x as u64, 4),
        r@.len() == 4,
{
    let mut r: Vec<u8> = Vec::new();
    r.push((x & 0xff) as u8);
    r.push(((x >> 8) & 0xff) as u8);
    r.push(((x >> 16) & 0xff) as u8);
    r.push(((x >> 24) & 0xff) as u8);
    proof {
        lemma_u64_shift_bytes(x as u64);
        lemma_pow256_values();
        let s = int_to_bytes_spec(x as u64, 4);
        assert(s[0] == ((x as u64 as nat) / pow256(0) % 256) as u8);
        assert(s[1] == ((x as u64 as nat) / pow256(1) % 256) as u8);
        assert(s[2] == ((x as u64 as nat) / pow256(2) % 256) as u8);
        assert(s[3] == ((x as u64 as nat) / pow256(3) % 256) as u8);
        assert(r@ =~= s);
    }
    r
}

/// The little-endian encoding of `x` in eight bytes.
pub fn int_to_bytes8(x: u64) -> (r: Vec<u8>)
    ensures
        r@ == int_to_bytes_spec(x, 8),
        r@.len() == 8,
{
    let mut r: Vec<u8> = Vec::new();
    r.push((x & 0xff) as u8);
    r.push(((x >> 8) & 0xff) as u8);
    r.push(((x >> 16) & 0xff) as u8);
    r.push(((x >> 24) & 0xff) as u8);
    r.push(((x >> 32) & 0xff) as u8);
    r.push(((x >> 40) & 0xff) as u8);
    r.push(((x >> 48) & 0xff) as u8);
    r.push(((x >> 56) & 0xff) as u8);
    proof {
        lemma_u64_shift_bytes(x);
        lemma_pow256_values();
        let s = int_to_bytes_spec(x, 8);
        assert(s[0] == ((x as nat) / pow256(0) % 256) as u8);
        assert(s[1] == ((x as nat) / pow256(1) % 256) as u8);
        assert(s[2] == ((x as nat) / pow256(2) % 256) as u8);
        assert(s[3] == ((x as nat) / pow256(3) % 256) as u8);
        assert(s[4] == ((x as nat) / pow256(4) % 256) as u8);
        assert(s[5] == ((x as nat) / pow256(5) % 256) as u8);
        assert(s[6] == ((x as nat) / pow256(6) % 256) as u8);
        assert(s[7] == ((x as nat) / pow256(7) % 256) as u8);
        assert(r@ =~= s);
    }
    r
}

/// Relates the shift-and-mask bytes of `x` to its division-based digits.
proof fn lemma_u64_shift_bytes(x: u64)
    ensures
        (x & 0xff) == x % 256,
        ((x >> 8) & 0xff) == (x / 0x100) % 256,
        ((x >> 16) & 0xff) == (x / 0x10000) % 256,
        ((x >> 24) & 0xff) == (x / 0x1000000) % 256,
        ((x >> 32) & 0xff) == (x / 0x100000000) % 256,
        ((x >> 40) & 0xff) == (x / 0x10000000000) % 256,
        ((x >> 48) & 0xff) == (x / 0x1000000000000) % 256,
        ((x >> 56) & 0xff) == (x / 0x100000000000000) % 256,
        x / 0x100000000000000 / 0x100 == 0,
{
    assert((x & 0xff) == x % 256) by (bit_vector);
    assert(((x >> 8) & 0xff) == (x / 0x100) % 256) by (bit_vector);
    assert(((x >> 16) & 0xff) == (x / 0x10000) % 256) by (bit_vector);
    assert(((x >> 24) & 0xff) == (x / 0x1000000) % 256) by (bit_vector);
    assert(((x >> 32) & 0xff) == (x / 0x100000000) % 256) by (bit_vector);
    assert(((x >> 40) & 0xff) == (x / 0x10000000000) % 256) by (bit_vector);
    assert(((x >> 48) & 0xff) == (x / 0x1000000000000) % 256) by (bit_vector);
    assert(((x >> 56) & 0xff) == (x / 0x100000000000000) % 256) by (bit_vector);
    assert(x / 0x100000000000000 / 0x100 == 0) by (bit_vector);
}

/// The integer read little-endian from the first eight bytes of `s`.
pub open spec fn u64_from_le_spec(s: Seq<u8>) -> nat {
    (s[0] as nat)
        + (s[1] as nat) * 0x100
        + (s[2] as nat) * 0x10000
        + (s[3] as nat) * 0x1000000
        + (s[4] as nat) * 0x100000000
        + (s[5] as nat) * 0x10000000000
        + (s[6] as nat) * 0x1000000000000
        + (s[7] as nat) * 0x100000000000000
}

/// Reads a `u64` little-endian from `bytes` starting at `offset`.
pub fn u64_from_le_bytes(bytes: &Vec<u8>, offset: usize) -> (r: u64)
    requires
        offset + 8 <= bytes@.len(),
    ensures
        r as nat == u64_from_le_spec(bytes@.subrange(offset as int, offset + 8)),
{
    let b0 = *bytes.get(offset).unwrap() as u64;
    let b1 = *bytes.get(offset + 1).unwrap() as u64;
    let b2 = *bytes.get(offset + 2).unwrap() as u64;
    let b3 = *bytes.get(offset + 3).unwrap() as u64;
    let b4 = *bytes.get(offset + 4).unwrap() as u64;
    let b5 = *bytes.get(offset + 5).unwrap() as u64;
    let b6 = *bytes.get(offset + 6).unwrap() as u64;
    let b7 = *bytes.get(offset + 7).unwrap() as u64;
    proof {
        lemma_le_read(b0, b1, b2, b3, b4, b5, b6, b7);
    }
    let r = b0
        + (b1 << 8)
        + (b2 << 16)
        + (b3 << 24)
        + (b4 << 32)
        + (b5 << 40)
        + (b6 << 48)
        + (b7 << 56);
    proof {
        let s = bytes@.subrange(offset as int, offset + 8);
        assert(s[0] == b0 && s[1] == b1 && s[2] == b2 && s[3] == b3 && s[4] == b4 && s[5] == b5
            && s[6] == b6 && s[7] == b7);
    }
    r
}

/// Shifted bytes sum without overflow and equal the positional sum.
proof fn lemma_le_read(b0: u64, b1: u64, b2: u64, b3: u64, b4: u64, b5: u64, b6: u64, b7: u64)
    requires
        b0 < 256, b1 < 256, b2 < 256, b3 < 256,
        b4 < 256, b5 < 256, b6 < 256, b7 < 256,
    ensures
        b0 + (b1 << 8) + (b2 << 16) + (b3 << 24) + (b4 << 32) + (b5 << 40) + (b6 << 48)
            + (b7 << 56) <= u64::MAX,
        b0 + (b1 << 8) + (b2 << 16) + (b3 << 24) + (b4 << 32) + (b5 << 40) + (b6 << 48)
            + (b7 << 56)
            == b0 + b1 * 0x100 + b2 * 0x10000 + b3 * 0x1000000 + b4 * 0x100000000
                + b5 * 0x10000000000 + b6 * 0x1000000000000 + b7 * 0x100000000000000,
{
    assert(b0 < 256 && b1 < 256 && b2 < 256 && b3 < 256 && b4 < 256 && b5 < 256 && b6 < 256
        && b7 < 256 ==> b0 + (b1 << 8) + (b2 << 16) + (b3 << 24) + (b4 << 32) + (b5 << 40)
        + (b6 << 48) + (b7 << 56) <= u64::MAX && b0 + (b1 << 8) + (b2 << 16) + (b3 << 24)
        + (b4 << 32) + (b5 << 40) + (b6 << 48) + (b7 << 56)
        == b0 + b1 * 0x100 + b2 * 0x10000 + b3 * 0x1000000 + b4 * 0x100000000
            + b5 * 0x10000000000 + b6 * 0x1000000000000 + b7 * 0x100000000000000)
        by (bit_vector);
}

} // verus!
