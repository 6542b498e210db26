//! X25519 scalar preparation (RFC 7748 §5): clear the low three bits and bit 255, set bit 254.

use vstd::arithmetic::power2::pow2;
use vstd::prelude::*;

use crate::bits::{le_spec, lemma_le_bit, lemma_mask_u8};
use crate::secret::SecretBytes;

verus! {

/// The prepared scalar of 32 input bytes.
pub open spec fn prepared_scalar_spec(input: Seq<u8>) -> Seq<u8> {
    input.update(0, input[0] & 0xf8u8).update(31, (input[31] & 0x7fu8) | 0x40u8)
}

/// Bit `index` of a little-endian byte string.
pub open spec fn scalar_bit_spec(bytes: Seq<u8>, index: int) -> u64 {
    ((bytes[index / 8] >> ((index % 8) as u8)) & 1u8) as u64
}

/// Scalar bit `index` is bit `index` of the bytes read as a little-endian integer: the `k_t` of
/// RFC 7748's ladder.
pub proof fn lemma_scalar_bit_is_integer_bit(bytes: Seq<u8>, index: int)
    requires
        bytes.len() == 32,
        0 <= index < 256,
    ensures
        scalar_bit_spec(bytes, index) as int == (le_spec(bytes) / (pow2(index as nat) as int)) % 2,
{
    lemma_le_bit(bytes, index);
}

/// An RFC 7748 prepared scalar, kept in a secret owner.
pub struct PreparedScalar {
    bytes: SecretBytes<32>,
}

impl PreparedScalar {
    /// The prepared bytes.
    pub closed spec fn spec_bytes(&self) -> Seq<u8> {
        self.bytes@
    }

    /// Apply the three bit rules to the caller's bytes.
    pub fn new(input: &[u8; 32]) -> (scalar: Self)
        ensures
            scalar.spec_bytes() == prepared_scalar_spec(input@),
            scalar_bit_spec(scalar.spec_bytes(), 0) == 0,
            scalar_bit_spec(scalar.spec_bytes(), 1) == 0,
            scalar_bit_spec(scalar.spec_bytes(), 2) == 0,
            scalar_bit_spec(scalar.spec_bytes(), 254) == 1,
            scalar_bit_spec(scalar.spec_bytes(), 255) == 0,
    {
        let mut prepared = *input;
        prepared[0] = prepared[0] & 0xf8;
        prepared[31] = prepared[31] & 0x7f;
        prepared[31] = prepared[31] | 0x40;
        let scalar = Self { bytes: SecretBytes::new(prepared) };
        assert(scalar.spec_bytes() =~= prepared_scalar_spec(input@));
        proof {
            lemma_prepared_bits(input[0], input[31]);
        }
        scalar
    }

    /// Borrow the prepared bytes.
    pub fn expose_secret(&self) -> (bytes: &[u8; 32])
        ensures
            bytes@ == self.spec_bytes(),
    {
        self.bytes.expose_secret()
    }

    /// Bit `bit_index` of the prepared scalar, read little-endian.
    pub fn bit(&self, bit_index: usize) -> (bit: u64)
        requires
            bit_index < 256,
        ensures
            bit == scalar_bit_spec(self.spec_bytes(), bit_index as int),
            bit <= 1,
    {
        let byte = self.bytes.expose_secret()[bit_index / 8];
        let shift = (bit_index % 8) as u8;
        proof {
            lemma_mask_u8(byte >> shift);
        }
        ((byte >> shift) & 1) as u64
    }
}

/// The three preparation rules fix bits 0, 1, 2 and 255 to zero and bit 254 to one.
proof fn lemma_prepared_bits(first: u8, last: u8)
    by (bit_vector)
    ensures
        ((first & 0xf8u8) >> 0u8) & 1u8 == 0u8,
        ((first & 0xf8u8) >> 1u8) & 1u8 == 0u8,
        ((first & 0xf8u8) >> 2u8) & 1u8 == 0u8,
        (((last & 0x7fu8) | 0x40u8) >> 6u8) & 1u8 == 1u8,
        (((last & 0x7fu8) | 0x40u8) >> 7u8) & 1u8 == 0u8,
{
}

} // verus!
