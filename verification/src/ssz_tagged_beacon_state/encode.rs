//! Framing a state body for storage: the fork tag byte leads.
use vstd::prelude::*;
use crate::chain_spec::ForkName;
use crate::shuffle::append_bytes;

verus! {

/// The storage encoding never has a fixed length: the body is
/// fork-shaped and variable.
pub fn is_ssz_fixed_len() -> (r: bool)
    ensures
        !r,
{
    false
}

/// The width of a variable-length offset in the outer encoding.
pub fn ssz_fixed_len() -> (r: usize)
    ensures
        r == 4,
{
    4
}

/// The stored length: the body's length plus the tag byte.
pub fn ssz_bytes_len(body_len: usize) -> (r: usize)
    requires
        body_len < usize::MAX,
    ensures
        r == body_len + 1,
{
    body_len + 1
}

/// Appends the tagged encoding to `buf`: the fork tag byte, then the
/// fork-shaped body as the codec produced it.
pub fn ssz_append(fork: ForkName, body: &Vec<u8>, buf: &mut Vec<u8>)
    ensures
        final(buf)@ == old(buf)@ + seq![fork.ord_spec() as u8] + body@,
{
    buf.push(fork.tag_byte());
    append_bytes(buf, body);
}

/// The tagged encoding as a fresh vector.
pub fn as_ssz_bytes(fork: ForkName, body: &Vec<u8>) -> (r: Vec<u8>)
    ensures
        r@ == seq![fork.ord_spec() as u8] + body@,
{
    let mut buf: Vec<u8> = Vec::new();
    ssz_append(fork, body, &mut buf);
    proof {
        assert(buf@ =~= seq![fork.ord_spec() as u8] + body@);
    }
    buf
}

} // verus!
