//! Calculated AES forward and inverse byte substitution (FIPS 197 §5.1.1 and §5.3.2).
//!
//! `SBOX()` maps a byte to its field inverse (zero to zero) and then applies an affine bit
//! transformation with constant `{63}`. `INVSBOX()` undoes the affine transformation and then
//! applies the self-inverse field inversion. No table is indexed by secret data.

use vstd::prelude::*;
use super::field::{gf_inv, lemma_inverse_involution, multiplicative_inverse_or_zero};

verus! {

/// Affine constant `c = {63}` from FIPS 197 equations 5.3 and 5.4.
pub const AFFINE_CONSTANT: u8 = 0x63;

/// Constant of the inverse affine transformation, solved from equation 5.4.
const INVERSE_AFFINE_CONSTANT: u8 = 0x05;

/// Bit `b_i` of a byte, least-significant bit first (FIPS 197 §3.2).
pub open spec fn bit_spec(byte: u8, i: usize) -> u8 {
    (byte >> i) & 1u8
}

/// Output bit `i` of FIPS 197 equation 5.3: `b_i ^ b_(i+4) ^ b_(i+5) ^ b_(i+6) ^ b_(i+7) ^ c_i`,
/// with every index reduced modulo eight.
pub open spec fn affine_bit(b: u8, i: usize) -> u8 {
    bit_spec(b, i) ^ bit_spec(b, ((i + 4) % 8) as usize) ^ bit_spec(b, ((i + 5) % 8) as usize)
        ^ bit_spec(b, ((i + 6) % 8) as usize) ^ bit_spec(b, ((i + 7) % 8) as usize)
        ^ bit_spec(0x63u8, i)
}

/// The bits `0..n` of the affine transformation placed at their positions.
pub open spec fn affine_partial(b: u8, n: nat) -> u8
    decreases n,
{
    if n == 0 {
        0
    } else {
        affine_partial(b, (n - 1) as nat) | (affine_bit(b, (n - 1) as usize) << ((n - 1) as usize))
    }
}

/// The affine transformation of FIPS 197 equation 5.3, all eight output bits.
pub open spec fn affine_spec(b: u8) -> u8 {
    (affine_bit(b, 0) << 0usize) | (affine_bit(b, 1) << 1usize) | (affine_bit(b, 2) << 2usize)
        | (affine_bit(b, 3) << 3usize) | (affine_bit(b, 4) << 4usize) | (affine_bit(b, 5)
        << 5usize) | (affine_bit(b, 6) << 6usize) | (affine_bit(b, 7) << 7usize)
}

/// Left rotation of a byte by `n` positions, `0 < n < 8`.
pub open spec fn rotl8(b: u8, n: u8) -> u8 {
    (b << n) | (b >> ((8 - n) as u8))
}

/// The inverse affine transformation `ROTL1(b) ^ ROTL3(b) ^ ROTL6(b) ^ {05}`.
pub open spec fn inverse_affine_spec(b: u8) -> u8 {
    rotl8(b, 1) ^ rotl8(b, 3) ^ rotl8(b, 6) ^ 0x05u8
}

/// `SBOX()`: the affine transformation of the field inverse (FIPS 197 §5.1.1).
pub open spec fn sbox_spec(b: u8) -> u8 {
    affine_spec(gf_inv(b))
}

/// `INVSBOX()`: the field inverse of the inverse affine transformation (FIPS 197 §5.3.2).
pub open spec fn inv_sbox_spec(b: u8) -> u8 {
    gf_inv(inverse_affine_spec(b))
}

/// The two affine transformations undo each other.
proof fn lemma_affine_inverse(b: u8)
    by (bit_vector)
    ensures
        inverse_affine_spec(affine_spec(b)) == b,
        affine_spec(inverse_affine_spec(b)) == b,
        0u8 | (affine_bit(b, 0) << 0usize) == (affine_bit(b, 0) << 0usize),
{
}

/// `INVSBOX()` and `SBOX()` undo each other for every byte.
pub proof fn lemma_sbox_inverse(b: u8)
    ensures
        inv_sbox_spec(sbox_spec(b)) == b,
        sbox_spec(inv_sbox_spec(b)) == b,
{
    lemma_affine_inverse(gf_inv(b));
    lemma_inverse_involution(b);
    lemma_affine_inverse(b);
    lemma_inverse_involution(inverse_affine_spec(b));
}

/// Bit `bit_index` of `byte`.
fn bit(byte: u8, bit_index: usize) -> (b: u8)
    requires
        bit_index < 8,
    ensures
        b == bit_spec(byte, bit_index),
{
    (byte >> bit_index) & 1
}

/// Apply FIPS 197 equation 5.3 one output bit at a time.
pub fn affine_transform(inverse: u8) -> (transformed: u8)
    ensures
        transformed == affine_spec(inverse),
{
    let mut transformed = 0u8;
    let mut output_bit_index: usize = 0;

    while output_bit_index < 8
        invariant
            output_bit_index <= 8,
            transformed == affine_partial(inverse, output_bit_index as nat),
        decreases 8 - output_bit_index,
    {
        let same_position = bit(inverse, output_bit_index);
        let offset_four = bit(inverse, (output_bit_index + 4) % 8);
        let offset_five = bit(inverse, (output_bit_index + 5) % 8);
        let offset_six = bit(inverse, (output_bit_index + 6) % 8);
        let offset_seven = bit(inverse, (output_bit_index + 7) % 8);
        let constant_bit = bit(AFFINE_CONSTANT, output_bit_index);
        let output_bit = same_position ^ offset_four ^ offset_five ^ offset_six ^ offset_seven
            ^ constant_bit;

        transformed = transformed | (output_bit << output_bit_index);
        output_bit_index = output_bit_index + 1;
    }
    proof {
        lemma_affine_inverse(inverse);
        reveal_with_fuel(affine_partial, 9);
    }
    transformed
}

/// Apply the AES forward S-box to one byte: field inverse, then affine transformation.
pub fn substitute_byte(byte: u8) -> (substituted: u8)
    ensures
        substituted == sbox_spec(byte),
{
    let inverse = multiplicative_inverse_or_zero(byte);
    affine_transform(inverse)
}

/// Undo the forward affine transformation with three rotations and a constant.
pub fn inverse_affine_transform(byte: u8) -> (b: u8)
    ensures
        b == inverse_affine_spec(byte),
{
    let rotate_one = (byte << 1u8) | (byte >> 7u8);
    let rotate_three = (byte << 3u8) | (byte >> 5u8);
    let rotate_six = (byte << 6u8) | (byte >> 2u8);
    rotate_one ^ rotate_three ^ rotate_six ^ INVERSE_AFFINE_CONSTANT
}

/// Apply the AES inverse S-box to one byte without a lookup table.
pub fn inverse_substitute_byte(byte: u8) -> (substituted: u8)
    ensures
        substituted == inv_sbox_spec(byte),
{
    let inverse_affine = inverse_affine_transform(byte);
    multiplicative_inverse_or_zero(inverse_affine)
}

} // verus!
