//! Byte arithmetic in AES's finite field `GF(2^8)` (FIPS 197 §4).
//!
//! A byte is a polynomial over `GF(2)` whose coefficients are its bits. Addition is XOR;
//! multiplication is polynomial multiplication reduced modulo `x^8 + x^4 + x^3 + x + 1`.
//! The calculation performs a fixed number of bit operations and never indexes a table.

use vstd::prelude::*;

verus! {

/// The low eight coefficients of the reduction polynomial `x^8 + x^4 + x^3 + x + 1`.
const REDUCTION_POLYNOMIAL_LOW_BYTE: u8 = 0x1b;

/// `XTIMES()` (FIPS 197 equation 4.5): multiplication by the polynomial `x`.
pub open spec fn xtime_spec(b: u8) -> u8 {
    if b & 0x80u8 == 0 {
        (b << 1u8) as u8
    } else {
        ((b << 1u8) ^ 0x1bu8) as u8
    }
}

/// `a * x^n`: `n` successive applications of `XTIMES()`.
pub open spec fn xtime_pow(a: u8, n: nat) -> u8
    decreases n,
{
    if n == 0 {
        a
    } else {
        xtime_spec(xtime_pow(a, (n - 1) as nat))
    }
}

/// `v` when coefficient `b_i` of `b` is one, and zero otherwise.
pub open spec fn select(b: u8, i: u8, v: u8) -> u8 {
    if (b >> i) & 1u8 == 1u8 {
        v
    } else {
        0u8
    }
}

/// Multiplication in `GF(2^8)` (FIPS 197 equations 4.3 and 4.4): the sum, over the
/// coefficients `b_i` of `b` that are one, of `a * x^i`.
pub open spec fn gf_mul(a: u8, b: u8) -> u8 {
    let a1 = xtime_spec(a);
    let a2 = xtime_spec(a1);
    let a3 = xtime_spec(a2);
    let a4 = xtime_spec(a3);
    let a5 = xtime_spec(a4);
    let a6 = xtime_spec(a5);
    let a7 = xtime_spec(a6);
    select(b, 0, a) ^ select(b, 1, a1) ^ select(b, 2, a2) ^ select(b, 3, a3) ^ select(b, 4, a4)
        ^ select(b, 5, a5) ^ select(b, 6, a6) ^ select(b, 7, a7)
}

/// The first `n` terms of the sum that defines [`gf_mul`].
pub open spec fn gf_mul_partial(a: u8, b: u8, n: nat) -> u8
    decreases n,
{
    if n == 0 {
        0
    } else {
        gf_mul_partial(a, b, (n - 1) as nat) ^ select(b, (n - 1) as u8, xtime_pow(a, (n - 1) as nat))
    }
}

/// `b^254`, written as the product `b^2 · b^4 · b^8 · b^16 · b^32 · b^64 · b^128`
/// (FIPS 197 equation 4.11). It is the multiplicative inverse of every nonzero byte
/// ([`lemma_inverse_is_inverse`]) and maps zero to zero.
pub open spec fn gf_inv(b: u8) -> u8 {
    let p2 = gf_mul(b, b);
    let p4 = gf_mul(p2, p2);
    let p8 = gf_mul(p4, p4);
    let p16 = gf_mul(p8, p8);
    let p32 = gf_mul(p16, p16);
    let p64 = gf_mul(p32, p32);
    let p128 = gf_mul(p64, p64);
    gf_mul(gf_mul(gf_mul(gf_mul(gf_mul(gf_mul(p2, p4), p8), p16), p32), p64), p128)
}

/// Bit facts behind [`xtimes`] and one iteration of [`multiply`].
proof fn lemma_byte_steps(byte: u8, mask: u8, multiplier: u8, i: u8, current: u8, select_mask: u8)
    by (bit_vector)
    ensures
        (byte >> 7u8) == 0u8 || (byte >> 7u8) == 1u8,
        ((byte >> 7u8) == 0u8 && mask == 0u8) || ((byte >> 7u8) == 1u8 && mask == 0xffu8)
            ==> ((byte << 1u8) ^ (0x1bu8 & mask)) == xtime_spec(byte),
        ((multiplier >> i) & 1u8) == 0u8 || ((multiplier >> i) & 1u8) == 1u8,
        (((multiplier >> i) & 1u8) == 0u8 && select_mask == 0u8) || (((multiplier >> i) & 1u8)
            == 1u8 && select_mask == 0xffu8) ==> (current & select_mask) == select(
            multiplier,
            i,
            current,
        ),
        i < 8 ==> ((multiplier >> i) >> 1u8) == multiplier >> ((i + 1) as u8),
        multiplier >> 0u8 == multiplier,
        0u8 ^ current == current,
{
}

#[verifier::rlimit(100)]
/// The chain `b^2 · b^4 · ... · b^128` is a multiplicative inverse of every nonzero byte and
/// maps zero to zero; intermediate powers are named so each relation is one field product.
proof fn lemma_chain_inverts(
    x: u8, a2: u8, a4: u8, a8: u8, a16: u8, a32: u8, a64: u8, a128: u8,
    a6: u8, a14: u8, a30: u8, a62: u8, a126: u8, y: u8,
)
    by (bit_vector)
    requires
        a2 == gf_mul(x, x), a4 == gf_mul(a2, a2), a8 == gf_mul(a4, a4), a16 == gf_mul(a8, a8),
        a32 == gf_mul(a16, a16), a64 == gf_mul(a32, a32), a128 == gf_mul(a64, a64),
        a6 == gf_mul(a2, a4), a14 == gf_mul(a6, a8), a30 == gf_mul(a14, a16),
        a62 == gf_mul(a30, a32), a126 == gf_mul(a62, a64), y == gf_mul(a126, a128),
    ensures
        x != 0 ==> gf_mul(x, y) == 1,
        x == 0 ==> y == 0,
{
}

#[verifier::rlimit(100)]
/// Field multiplication is commutative.
proof fn lemma_mul_commutes(a: u8, b: u8)
    by (bit_vector)
    ensures
        gf_mul(a, b) == gf_mul(b, a),
{
}

/// A nonzero byte has at most one inverse, and zero has none.
proof fn lemma_inverse_unique(x: u8, y: u8, z: u8)
    by (bit_vector)
    ensures
        gf_mul(x, y) == 1 && gf_mul(x, z) == 1 ==> y == z,
        gf_mul(x, 0) == 0,
{
}

/// The calculated inverse is an involution: `(b^254)^254 = b` for every byte.
pub proof fn lemma_inverse_involution(x: u8)
    ensures
        gf_inv(gf_inv(x)) == x,
{
    let y = gf_inv(x);
    let z = gf_inv(y);
    let a2 = gf_mul(x, x);
    let a4 = gf_mul(a2, a2);
    let a8 = gf_mul(a4, a4);
    let a16 = gf_mul(a8, a8);
    let a32 = gf_mul(a16, a16);
    let a64 = gf_mul(a32, a32);
    let a128 = gf_mul(a64, a64);
    let a6 = gf_mul(a2, a4);
    let a14 = gf_mul(a6, a8);
    let a30 = gf_mul(a14, a16);
    let a62 = gf_mul(a30, a32);
    let a126 = gf_mul(a62, a64);
    lemma_chain_inverts(x, a2, a4, a8, a16, a32, a64, a128, a6, a14, a30, a62, a126, y);
    let b2 = gf_mul(y, y);
    let b4 = gf_mul(b2, b2);
    let b8 = gf_mul(b4, b4);
    let b16 = gf_mul(b8, b8);
    let b32 = gf_mul(b16, b16);
    let b64 = gf_mul(b32, b32);
    let b128 = gf_mul(b64, b64);
    let b6 = gf_mul(b2, b4);
    let b14 = gf_mul(b6, b8);
    let b30 = gf_mul(b14, b16);
    let b62 = gf_mul(b30, b32);
    let b126 = gf_mul(b62, b64);
    lemma_chain_inverts(y, b2, b4, b8, b16, b32, b64, b128, b6, b14, b30, b62, b126, z);
    lemma_inverse_unique(x, 0, 0);
    if x != 0 {
        lemma_mul_commutes(x, y);
        lemma_inverse_unique(y, x, z);
    }
}

/// Add two elements of `GF(2^8)`: coefficient-wise addition modulo two is XOR.
pub fn field_add(left: u8, right: u8) -> (sum: u8)
    ensures
        sum == left ^ right,
{
    left ^ right
}

/// Multiply one field element by `{02}` without a value-dependent branch.
pub fn xtimes(byte: u8) -> (product: u8)
    ensures
        product == xtime_spec(byte),
{
    let high_bit = byte >> 7u8;
    proof {
        lemma_byte_steps(byte, 0, 0, 0, 0, 0);
    }
    let reduction_mask = 0u8.wrapping_sub(high_bit);
    proof {
        lemma_byte_steps(byte, reduction_mask, 0, 0, 0, 0);
    }
    (byte << 1u8) ^ (REDUCTION_POLYNOMIAL_LOW_BYTE & reduction_mask)
}

/// Multiply two elements of `GF(2^8)` with a fixed eight-iteration loop.
///
/// Each coefficient of `multiplier` selects, through a mask, one successively doubled multiple
/// of `multiplicand`.
pub fn multiply(multiplicand: u8, multiplier: u8) -> (product: u8)
    ensures
        product == gf_mul(multiplicand, multiplier),
{
    let mut product = 0u8;
    let mut current_multiple = multiplicand;
    let mut remaining_multiplier = multiplier;
    let mut bit_index: u8 = 0;
    proof {
        lemma_byte_steps(0, 0, multiplier, 0, 0, 0);
    }

    while bit_index < 8
        invariant
            bit_index <= 8,
            product == gf_mul_partial(multiplicand, multiplier, bit_index as nat),
            current_multiple == xtime_pow(multiplicand, bit_index as nat),
            remaining_multiplier == multiplier >> bit_index,
        decreases 8 - bit_index,
    {
        let coefficient = remaining_multiplier & 1;
        proof {
            lemma_byte_steps(0, 0, multiplier, bit_index, current_multiple, 0);
        }
        let selection_mask = 0u8.wrapping_sub(coefficient);
        proof {
            lemma_byte_steps(0, 0, multiplier, bit_index, current_multiple, selection_mask);
        }
        product = product ^ (current_multiple & selection_mask);
        current_multiple = xtimes(current_multiple);
        remaining_multiplier = remaining_multiplier >> 1u8;
        bit_index = bit_index + 1;
    }
    proof {
        let a = multiplicand;
        let b = multiplier;
        reveal_with_fuel(xtime_pow, 8);
        assert(xtime_pow(a, 1) == xtime_spec(a));
        assert(xtime_pow(a, 2) == xtime_spec(xtime_pow(a, 1)));
        assert(xtime_pow(a, 3) == xtime_spec(xtime_pow(a, 2)));
        assert(xtime_pow(a, 4) == xtime_spec(xtime_pow(a, 3)));
        assert(xtime_pow(a, 5) == xtime_spec(xtime_pow(a, 4)));
        assert(xtime_pow(a, 6) == xtime_spec(xtime_pow(a, 5)));
        assert(xtime_pow(a, 7) == xtime_spec(xtime_pow(a, 6)));
        lemma_byte_steps(0, 0, 0, 0, select(b, 0, a), 0);
        reveal_with_fuel(gf_mul_partial, 9);
    }
    product
}

/// `b^254` through a fixed public chain of squarings and products; zero maps to zero.
pub fn multiplicative_inverse_or_zero(byte: u8) -> (inverse: u8)
    ensures
        inverse == gf_inv(byte),
{
    let power_2 = multiply(byte, byte);
    let power_4 = multiply(power_2, power_2);
    let power_8 = multiply(power_4, power_4);
    let power_16 = multiply(power_8, power_8);
    let power_32 = multiply(power_16, power_16);
    let power_64 = multiply(power_32, power_32);
    let power_128 = multiply(power_64, power_64);

    let power_6 = multiply(power_2, power_4);
    let power_14 = multiply(power_6, power_8);
    let power_30 = multiply(power_14, power_16);
    let power_62 = multiply(power_30, power_32);
    let power_126 = multiply(power_62, power_64);

    multiply(power_126, power_128)
}

} // verus!
