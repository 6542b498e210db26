//! Clearing secret temporaries with the `zeroize` crate.

use vstd::prelude::*;
use zeroize::Zeroize;

verus! {

/// Overwrite every byte of an array with zero through `<[u8; N] as Zeroize>::zeroize`.
///
/// The contract claims what the `zeroize` source shows: each element is written with its
/// default value, zero, and the length of an array cannot change.
#[verifier::external_body]
pub(crate) fn wipe_array<const N: usize>(bytes: &mut [u8; N])
    ensures
        final(bytes)@ == Seq::new(N as nat, |i: int| 0u8),
{
    bytes.zeroize();
}

/// Zero every element of a vector and then clear it, through `<Vec<u8> as Zeroize>::zeroize`.
///
/// The contract claims what the `zeroize` source shows: the elements and spare capacity are
/// overwritten and the vector is left empty.
#[verifier::external_body]
pub(crate) fn wipe_vec(bytes: &mut Vec<u8>)
    ensures
        final(bytes)@ == Seq::<u8>::empty(),
{
    bytes.zeroize();
}

} // verus!
