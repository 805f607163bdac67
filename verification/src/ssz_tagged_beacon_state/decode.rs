//! Unframing a stored state: read the fork tag byte, hand the body to
//! that fork's decoder.
use vstd::prelude::*;
use crate::chain_spec::ForkName;
use crate::error::DecodeError;

verus! {

/// The storage encoding never has a fixed length.
pub fn is_ssz_fixed_len() -> (r: bool)
    ensures
        !r,
{
    false
}

/// The width of a variable-length offset in the outer encoding.
pub fn ssz_fixed_len() -> (r: usize)
    ensures
        r == 4,
{
    4
}

/// Splits stored bytes into the fork they were stored under and the
/// fork-shaped body: an error on empty input or an unknown tag byte.
pub fn from_ssz_bytes(bytes: &Vec<u8>) -> (r: Result<(ForkName, Vec<u8>), DecodeError>)
    ensures
        bytes@.len() == 0 ==> r == Err::<(ForkName, Vec<u8>), DecodeError>(
            DecodeError::OutOfBoundsByte { i: 0 },
        ),
        bytes@.len() > 0 && bytes@[0] >= 5 ==> r == Err::<(ForkName, Vec<u8>), DecodeError>(
            DecodeError::InvalidForkByte(bytes@[0]),
        ),
        bytes@.len() > 0 && bytes@[0] < 5 ==> (r matches Ok(out) && out.0.ord_spec()
            == bytes@[0] as int && out.1@ == bytes@.subrange(1, bytes@.len() as int)),
{
    if bytes.len() == 0 {
        return Err(DecodeError::OutOfBoundsByte { i: 0 });
    }
    let tag = *bytes.get(0).unwrap();
    let fork = match ForkName::from_tag_byte(tag) {
        Some(f) => f,
        None => {
            return Err(DecodeError::InvalidForkByte(tag));
        },
    };
    let mut body: Vec<u8> = Vec::new();
    let mut i: usize = 1;
    while i < bytes.len()
        invariant
            1 <= i <= bytes@.len(),
            body@ == bytes@.subrange(1, i as int),
        decreases bytes@.len() - i,
    {
        body.push(*bytes.get(i).unwrap());
        proof {
            assert(bytes@.subrange(1, i as int) + seq![bytes@[i as int]] =~= bytes@.subrange(
                1,
                i + 1,
            ));
        }
        i = i + 1;
    }
    Ok((fork, body))
}

} // verus!
