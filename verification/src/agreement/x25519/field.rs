//! Arithmetic modulo `p = 2^255 - 19` (RFC 7748 §5) on five limbs of 51 bits.
//!
//! A field element is `l0 + l1 2^51 + l2 2^102 + l3 2^153 + l4 2^204`, taken modulo `p`. Every
//! operation forms 128-bit coefficients and carries them back into limbs; a carry out of the top
//! limb wraps into the bottom limb times nineteen because `2^255 = 19 (mod p)`.

use vstd::arithmetic::div_mod::{
    lemma_add_mod_noop, lemma_mod_multiples_vanish, lemma_mul_mod_noop, lemma_mul_mod_noop_right, lemma_small_mod,
    lemma_sub_mod_noop,
};
use vstd::prelude::*;

use vstd::arithmetic::power::{lemma_pow0, lemma_pow1, lemma_pow_adds, pow};
use vstd::arithmetic::power2::{lemma2_to64, lemma2_to64_rest, lemma_pow2_adds, lemma_pow2_unfold, pow2};

use crate::bits::{le_spec, lemma_le_concat, lemma_le_eight, lemma_pow256_values};

verus! {

/// `p = 2^255 - 19`.
pub open spec fn p25519() -> int {
    0x7fff_ffff_ffff_ffff_ffff_ffff_ffff_ffff_ffff_ffff_ffff_ffff_ffff_ffff_ffff_ffedint
}

/// `(a + b) mod p`.
pub open spec fn field_add(a: int, b: int) -> int {
    (a + b) % p25519()
}

/// `(a - b) mod p`.
pub open spec fn field_sub(a: int, b: int) -> int {
    (a - b) % p25519()
}

/// `(a * b) mod p`.
pub open spec fn field_mul(a: int, b: int) -> int {
    (a * b) % p25519()
}

/// Adding then subtracting the same residue gives the first residue back.
pub proof fn lemma_add_then_subtract(a: int, b: int)
    requires
        0 <= a < p25519(),
        0 <= b < p25519(),
    ensures
        field_sub(field_add(a, b), b) == a,
{
    let p = p25519();
    lemma_small_mod(b as nat, p as nat);
    lemma_small_mod(a as nat, p as nat);
    lemma_sub_mod_noop(a + b, b, p);
}

/// Multiplication of residues commutes.
pub proof fn lemma_multiply_commutes(a: int, b: int)
    ensures
        field_mul(a, b) == field_mul(b, a),
{
    assert(a * b == b * a) by (nonlinear_arith);
}

/// Multiplication distributes over addition of residues.
pub proof fn lemma_multiply_distributes(a: int, b: int, c: int)
    ensures
        field_mul(a, field_add(b, c)) == field_add(field_mul(a, b), field_mul(a, c)),
{
    let p = p25519();
    lemma_mul_mod_noop_right(a, b + c, p);
    assert(a * (b + c) == a * b + a * c) by (nonlinear_arith);
    lemma_add_mod_noop(a * b, a * c, p);
}

/// The value of five coefficients at radix `2^51`.
pub open spec fn coefficients_value(c0: int, c1: int, c2: int, c3: int, c4: int) -> int {
    c0 + c1 * 0x8_0000_0000_0000 + c2 * 0x40_0000_0000_0000_0000_0000_0000int
        + c3 * 0x200_0000_0000_0000_0000_0000_0000_0000_0000_0000int
        + c4 * 0x1000_0000_0000_0000_0000_0000_0000_0000_0000_0000_0000_0000_0000int
}

/// The value of a limb array.
pub open spec fn limbs_value(l: [u64; 5]) -> int {
    coefficients_value(l[0] as int, l[1] as int, l[2] as int, l[3] as int, l[4] as int)
}

/// The value of a coefficient array.
pub open spec fn wide_value(c: [u128; 5]) -> int {
    coefficients_value(c[0] as int, c[1] as int, c[2] as int, c[3] as int, c[4] as int)
}

/// Every limb is below `2^51`.
pub open spec fn reduced_limbs(l: [u64; 5]) -> bool {
    l[0] < 0x8_0000_0000_0000 && l[1] < 0x8_0000_0000_0000 && l[2] < 0x8_0000_0000_0000
        && l[3] < 0x8_0000_0000_0000 && l[4] < 0x8_0000_0000_0000
}

/// Coefficients small enough for three carry passes.
pub open spec fn wide_bounded(c: [u128; 5]) -> bool {
    c[0] < 0x100_0000_0000_0000_0000_0000_0000_0000 && c[1] < 0x100_0000_0000_0000_0000_0000_0000_0000
        && c[2] < 0x100_0000_0000_0000_0000_0000_0000_0000 && c[3] < 0x100_0000_0000_0000_0000_0000_0000_0000
        && c[4] < 0x100_0000_0000_0000_0000_0000_0000_0000
}

/// One carry pass: each coefficient keeps its low 51 bits and passes the rest up; the top carry
/// wraps to the bottom times nineteen.
fn carry_pass(c: [u128; 5]) -> (out: [u128; 5])
    requires
        wide_bounded(c),
    ensures
        out[1] < 0x8_0000_0000_0000,
        out[2] < 0x8_0000_0000_0000,
        out[3] < 0x8_0000_0000_0000,
        out[4] < 0x8_0000_0000_0000,
        out[0] < 0x1000_0000_0000_0000_0000,
        c[0] < 0x1000_0000_0000_0000_0000 && c[1] < 0x8_0000_0000_0000 && c[2] < 0x8_0000_0000_0000
            && c[3] < 0x8_0000_0000_0000 && c[4] < 0x8_0000_0000_0000 ==> out[0] < 0x8_0000_0000_0000 + 19
            && (out[0] >= 0x8_0000_0000_0000 ==> out[4] == 0),
        c[0] < 0x8_0000_0000_0000 + 19 && c[1] < 0x8_0000_0000_0000 && c[2] < 0x8_0000_0000_0000
            && c[3] < 0x8_0000_0000_0000 && c[4] < 0x8_0000_0000_0000
            && (c[0] >= 0x8_0000_0000_0000 ==> c[4] == 0) ==> out[0] < 0x8_0000_0000_0000,
        wide_value(out) % p25519() == wide_value(c) % p25519(),
{
    let k0 = c[0] / 0x8_0000_0000_0000;
    let e0 = c[0] % 0x8_0000_0000_0000;
    let d1 = c[1] + k0;
    let k1 = d1 / 0x8_0000_0000_0000;
    let e1 = d1 % 0x8_0000_0000_0000;
    let d2 = c[2] + k1;
    let k2 = d2 / 0x8_0000_0000_0000;
    let e2 = d2 % 0x8_0000_0000_0000;
    let d3 = c[3] + k2;
    let k3 = d3 / 0x8_0000_0000_0000;
    let e3 = d3 % 0x8_0000_0000_0000;
    let d4 = c[4] + k3;
    let k4 = d4 / 0x8_0000_0000_0000;
    let e4 = d4 % 0x8_0000_0000_0000;
    let out = [e0 + 19 * k4, e1, e2, e3, e4];
    proof {
        assert(c[0] == e0 + k0 * 0x8_0000_0000_0000);
        assert(d1 == e1 + k1 * 0x8_0000_0000_0000);
        assert(d2 == e2 + k2 * 0x8_0000_0000_0000);
        assert(d3 == e3 + k3 * 0x8_0000_0000_0000);
        assert(d4 == e4 + k4 * 0x8_0000_0000_0000);
        assert(out[0] == e0 + 19 * k4 && out[1] == e1 && out[2] == e2 && out[3] == e3 && out[4] == e4);
        assert(wide_value(out) == wide_value(c) - (k4 as int) * 0x7fff_ffff_ffff_ffff_ffff_ffff_ffff_ffff_ffff_ffff_ffff_ffff_ffff_ffff_ffff_ffedint);
        lemma_mod_multiples_vanish(-(k4 as int), wide_value(out) + (k4 as int) * p25519(), p25519());
        assert(p25519() * -(k4 as int) + (wide_value(out)
            + (k4 as int) * p25519()) == wide_value(out)) by (nonlinear_arith);
    }
    out
}

/// Carry 128-bit coefficients into reduced limbs, keeping the value modulo `p`.
pub fn reduce_coefficients(coefficients: [u128; 5]) -> (limbs: [u64; 5])
    requires
        wide_bounded(coefficients),
    ensures
        reduced_limbs(limbs),
        limbs_value(limbs) % p25519() == wide_value(coefficients) % p25519(),
{
    let first = carry_pass(coefficients);
    let second = carry_pass(first);
    let third = carry_pass(second);
    [third[0] as u64, third[1] as u64, third[2] as u64, third[3] as u64, third[4] as u64]
}

/// `p` in limbs: `2^51 - 19` then four limbs of `2^51 - 1`.
pub const MODULUS_LIMBS: [u64; 5] = [
    0x7_ffff_ffff_ffed,
    0x7_ffff_ffff_ffff,
    0x7_ffff_ffff_ffff,
    0x7_ffff_ffff_ffff,
    0x7_ffff_ffff_ffff,
];

/// The product of two limbs below `2^52`.
fn limb_product(x: u64, y: u64) -> (product: u128)
    requires
        x < 0x10_0000_0000_0000,
        y < 0x10_0000_0000_0000,
    ensures
        product == x * y,
        product < 0x100_0000_0000_0000_0000_0000_0000,
{
    assert(x * y < 0x100_0000_0000_0000_0000_0000_0000) by (nonlinear_arith)
        requires x < 0x10_0000_0000_0000, y < 0x10_0000_0000_0000;
    x as u128 * y as u128
}

/// Selecting with an all-zero or all-one mask, and exchanging through a masked difference.
proof fn lemma_mask_select(mask: u64, x: u64, y: u64)
    by (bit_vector)
    requires
        mask == 0 || mask == 0xffff_ffff_ffff_ffffu64,
    ensures
        mask == 0 ==> (x & !mask) | (y & mask) == x,
        mask == 0xffff_ffff_ffff_ffffu64 ==> (x & !mask) | (y & mask) == y,
        mask == 0 ==> x ^ (mask & (x ^ y)) == x && y ^ (mask & (x ^ y)) == y,
        mask == 0xffff_ffff_ffff_ffffu64 ==> x ^ (mask & (x ^ y)) == y && y ^ (mask & (x ^ y)) == x,
{
}

/// Exchange two limbs when `mask` is all ones; keep them when it is zero.
fn swap_limbs(mask: u64, x: u64, y: u64) -> (pair: (u64, u64))
    requires
        mask == 0 || mask == 0xffff_ffff_ffff_ffffu64,
    ensures
        mask == 0 ==> pair == (x, y),
        mask != 0 ==> pair == (y, x),
{
    proof {
        lemma_mask_select(mask, x, y);
    }
    let selected_difference = mask & (x ^ y);
    (x ^ selected_difference, y ^ selected_difference)
}

/// The little-endian value of `bytes[at .. at + 8]`.
fn load_word(bytes: &[u8; 32], at: usize) -> (word: u64)
    requires
        at + 8 <= 32,
    ensures
        word == le_spec(bytes@.subrange(at as int, at + 8)),
{
    proof {
        lemma_le_eight(bytes@.subrange(at as int, at + 8));
    }
    bytes[at] as u64 + bytes[at + 1] as u64 * 0x100 + bytes[at + 2] as u64 * 0x1_0000 + bytes[at
        + 3] as u64 * 0x100_0000
        + bytes[at + 4] as u64 * 0x1_0000_0000 + bytes[at + 5] as u64 * 0x100_0000_0000
        + bytes[at + 6] as u64 * 0x1_0000_0000_0000 + bytes[at + 7] as u64 * 0x100_0000_0000_0000
}

/// The eight little-endian bytes of a word.
fn word_bytes(word: u64) -> (bytes: [u8; 8])
    ensures
        le_spec(bytes@) == word,
{
    let mut remaining = word;
    let mut bytes = [0u8; 8];
    let b0 = (remaining % 256) as u8;
    remaining = remaining / 256;
    let b1 = (remaining % 256) as u8;
    remaining = remaining / 256;
    let b2 = (remaining % 256) as u8;
    remaining = remaining / 256;
    let b3 = (remaining % 256) as u8;
    remaining = remaining / 256;
    let b4 = (remaining % 256) as u8;
    remaining = remaining / 256;
    let b5 = (remaining % 256) as u8;
    remaining = remaining / 256;
    let b6 = (remaining % 256) as u8;
    remaining = remaining / 256;
    let b7 = remaining as u8;
    bytes = [b0, b1, b2, b3, b4, b5, b6, b7];
    proof {
        lemma_le_eight(bytes@);
    }
    bytes
}

/// The value of thirty-two bytes from their four little-endian words.
proof fn lemma_le_words(bytes: Seq<u8>)
    requires
        bytes.len() == 32,
    ensures
        le_spec(bytes) == le_spec(bytes.subrange(0, 8)) + le_spec(bytes.subrange(8, 16)) * 0x1_0000_0000_0000_0000
            + le_spec(bytes.subrange(16, 24)) * 0x1_0000_0000_0000_0000_0000_0000_0000_0000int
            + le_spec(bytes.subrange(24, 32)) * 0x1_0000_0000_0000_0000_0000_0000_0000_0000_0000_0000_0000_0000int,
{
    let (s0, s1, s2, s3) = (bytes.subrange(0, 8), bytes.subrange(8, 16), bytes.subrange(16, 24),
        bytes.subrange(24, 32));
    lemma_pow256_values();
    assert(bytes =~= s0 + (s1 + (s2 + s3)));
    lemma_le_concat(s2, s3);
    lemma_le_concat(s1, s2 + s3);
    lemma_le_concat(s0, s1 + (s2 + s3));
    let (x0, x1, x2, x3) = (le_spec(s0), le_spec(s1), le_spec(s2), le_spec(s3));
    let x23 = le_spec(s2 + s3);
    let x123 = le_spec(s1 + (s2 + s3));
    assert(x23 == x2 + 0x1_0000_0000_0000_0000 * x3);
    assert(x123 == x1 + 0x1_0000_0000_0000_0000 * x23);
    assert(le_spec(bytes) == x0 + 0x1_0000_0000_0000_0000 * x123);
}

/// One step of subtracting `p`: `limb - modulus_limb - borrow == difference - 2^51 borrow_out`.
fn subtract_limb(limb: u64, modulus_limb: u64, borrow: u64) -> (result: (u64, u64))
    requires
        limb < 0x8_0000_0000_0000,
        0x8_0000_0000_0000 - 19 <= modulus_limb < 0x8_0000_0000_0000,
        borrow <= 1,
    ensures
        result.0 < 0x8_0000_0000_0000,
        result.1 <= 1,
        limb - modulus_limb - borrow == result.0 - 0x8_0000_0000_0000 * result.1,
{
    let tentative = limb + 0x8_0000_0000_0000 - (modulus_limb + borrow);
    let difference = tentative % 0x8_0000_0000_0000;
    let borrow_out = 1 - tentative / 0x8_0000_0000_0000;
    (difference, borrow_out)
}

/// Keep `kept` under an all-zero mask, take `taken` under an all-one mask.
fn select_limbs(mask: u64, kept: [u64; 5], taken: [u64; 5]) -> (selected: [u64; 5])
    requires
        mask == 0 || mask == 0xffff_ffff_ffff_ffffu64,
    ensures
        mask == 0 ==> selected == kept,
        mask != 0 ==> selected == taken,
{
    proof {
        lemma_mask_select(mask, kept[0], taken[0]);
        lemma_mask_select(mask, kept[1], taken[1]);
        lemma_mask_select(mask, kept[2], taken[2]);
        lemma_mask_select(mask, kept[3], taken[3]);
        lemma_mask_select(mask, kept[4], taken[4]);
    }
    let selected = [
        (kept[0] & !mask) | (taken[0] & mask),
        (kept[1] & !mask) | (taken[1] & mask),
        (kept[2] & !mask) | (taken[2] & mask),
        (kept[3] & !mask) | (taken[3] & mask),
        (kept[4] & !mask) | (taken[4] & mask),
    ];
    assert(selected =~= (if mask == 0 { kept } else { taken }));
    selected
}

/// Subtracting `p` limb by limb from a value below `2p` and keeping the difference exactly when
/// no borrow is left yields the value modulo `p`.
proof fn lemma_select_reduced(l: [u64; 5], d: [u64; 5], b0: u64, b1: u64, b2: u64, b3: u64, b4: u64,
    canonical: [u64; 5])
    requires
        reduced_limbs(l),
        d[0] < 0x8_0000_0000_0000 && d[1] < 0x8_0000_0000_0000 && d[2] < 0x8_0000_0000_0000
            && d[3] < 0x8_0000_0000_0000 && d[4] < 0x8_0000_0000_0000,
        b4 <= 1,
        l[0] - MODULUS_LIMBS[0] - 0 == d[0] - 0x8_0000_0000_0000 * b0,
        l[1] - MODULUS_LIMBS[1] - b0 == d[1] - 0x8_0000_0000_0000 * b1,
        l[2] - MODULUS_LIMBS[2] - b1 == d[2] - 0x8_0000_0000_0000 * b2,
        l[3] - MODULUS_LIMBS[3] - b2 == d[3] - 0x8_0000_0000_0000 * b3,
        l[4] - MODULUS_LIMBS[4] - b3 == d[4] - 0x8_0000_0000_0000 * b4,
        b4 == 0 ==> canonical == d,
        b4 == 1 ==> canonical == l,
    ensures
        limbs_value(canonical) == limbs_value(l) % p25519(),
{
    let p = p25519();
    let big = limbs_value(l);
    let diff = limbs_value(d);
    assert(big - p == diff - 0x8000_0000_0000_0000_0000_0000_0000_0000_0000_0000_0000_0000_0000_0000_0000_0000int * b4);
    assert(0 <= big < 2 * p);
    if b4 == 0 {
        lemma_mod_multiples_vanish(1, diff, p);
        lemma_small_mod(diff as nat, p as nat);
    } else {
        lemma_small_mod(big as nat, p as nat);
    }
}

/// Fully reduce limbs: the result encodes the value modulo `p` with every limb below `2^51`.
pub fn canonical_limbs(limbs: [u64; 5]) -> (canonical: [u64; 5])
    ensures
        limbs_value(canonical) == limbs_value(limbs) % p25519(),
        reduced_limbs(canonical),
{
    let wide = [limbs[0] as u128, limbs[1] as u128, limbs[2] as u128, limbs[3] as u128, limbs[4] as u128];
    let l = reduce_coefficients(wide);
    let (d0, b0) = subtract_limb(l[0], MODULUS_LIMBS[0], 0);
    let (d1, b1) = subtract_limb(l[1], MODULUS_LIMBS[1], b0);
    let (d2, b2) = subtract_limb(l[2], MODULUS_LIMBS[2], b1);
    let (d3, b3) = subtract_limb(l[3], MODULUS_LIMBS[3], b2);
    let (d4, b4) = subtract_limb(l[4], MODULUS_LIMBS[4], b3);
    // A final borrow of zero means the reduced value was at least `p`: keep the difference.
    // The choice is made with a mask, so no branch depends on the value.
    let use_difference = 1 - b4;
    let selection_mask = 0u64.wrapping_sub(use_difference);
    let canonical = select_limbs(selection_mask, l, [d0, d1, d2, d3, d4]);
    proof {
        assert(wide_value(wide) == limbs_value(limbs));
        lemma_select_reduced(l, [d0, d1, d2, d3, d4], b0, b1, b2, b3, b4, canonical);
    }
    canonical
}

/// `p - 2 = 2^255 - 21`, little-endian: the exponent that inverts by Fermat's little theorem.
pub const INVERSE_EXPONENT: [u8; 32] = [
    0xeb, 0xff, 0xff, 0xff, 0xff, 0xff, 0xff, 0xff, 0xff, 0xff, 0xff, 0xff, 0xff, 0xff, 0xff, 0xff,
    0xff, 0xff, 0xff, 0xff, 0xff, 0xff, 0xff, 0xff, 0xff, 0xff, 0xff, 0xff, 0xff, 0xff, 0xff, 0x7f,
];

/// Bit `i` of `p - 2`: every bit below 255 is set except bits two and four.
pub open spec fn exponent_bit_spec(i: int) -> int {
    if i == 2 || i == 4 {
        0
    } else {
        1
    }
}

/// The bits of `p - 2` from 254 down to `i`, read as a number.
pub open spec fn exponent_prefix(i: nat) -> nat
    decreases 255 - i,
{
    if i >= 255 {
        0
    } else {
        (2 * exponent_prefix(i + 1) + exponent_bit_spec(i as int)) as nat
    }
}

/// The low bits of the three distinct bytes of the exponent.
proof fn lemma_exponent_byte_bits(shift: u8)
    by (bit_vector)
    requires
        shift < 8,
    ensures
        (0xffu8 >> shift) & 1u8 == 1u8,
        shift < 7 ==> (0x7fu8 >> shift) & 1u8 == 1u8,
        (shift == 2 || shift == 4) ==> (0xebu8 >> shift) & 1u8 == 0u8,
        !(shift == 2 || shift == 4) ==> (0xebu8 >> shift) & 1u8 == 1u8,
{
}

/// Bit `bit_index` of the inversion exponent, read from its bytes.
fn inverse_exponent_bit(bit_index: usize) -> (bit: u8)
    requires
        bit_index < 255,
    ensures
        bit == exponent_bit_spec(bit_index as int),
{
    let byte = INVERSE_EXPONENT[bit_index / 8];
    let shift = (bit_index % 8) as u8;
    proof {
        lemma_exponent_byte_bits(shift);
        if bit_index / 8 == 0 {
            assert(byte == 0xeb);
        } else if bit_index / 8 == 31 {
            assert(byte == 0x7f);
        } else {
            assert(byte == 0xff);
        }
    }
    (byte >> shift) & 1
}

/// The bits of `p - 2` from 254 down to `i >= 5` are all ones.
proof fn lemma_exponent_high(i: nat)
    requires
        5 <= i <= 255,
    ensures
        exponent_prefix(i) == pow2((255 - i) as nat) - 1,
    decreases 255 - i,
{
    if i == 255 {
        lemma2_to64();
    } else {
        lemma_exponent_high(i + 1);
        lemma_pow2_unfold((255 - i) as nat);
    }
}

/// All the bits of the exponent make `p - 2`.
proof fn lemma_exponent_value()
    ensures
        exponent_prefix(0) == p25519() - 2,
{
    lemma_exponent_high(5);
    lemma2_to64();
    lemma2_to64_rest();
    lemma_pow2_adds(64, 58);
    lemma_pow2_adds(64, 122);
    lemma_pow2_adds(64, 186);
    assert(pow2(122) == 0x400_0000_0000_0000_0000_0000_0000_0000int);
    assert(pow2(186) == 0x400_0000_0000_0000_0000_0000_0000_0000_0000_0000_0000_0000int);
    assert(pow2(250) == 0x400_0000_0000_0000_0000_0000_0000_0000_0000_0000_0000_0000_0000_0000_0000_0000int);
    reveal_with_fuel(exponent_prefix, 6);
}

/// Squaring `x^e` and multiplying by `x` when the next bit is set gives `x^(2e + bit)`.
proof fn lemma_power_step(x: int, e: nat, bit: int, squared: int, next: int)
    requires
        0 <= x < p25519(),
        bit == 0 || bit == 1,
        squared == ((pow(x, e) % p25519()) * (pow(x, e) % p25519())) % p25519(),
        bit == 0 ==> next == squared,
        bit == 1 ==> next == (squared * x) % p25519(),
    ensures
        next == pow(x, (2 * e + bit) as nat) % p25519(),
{
    let p = p25519();
    lemma_mul_mod_noop(pow(x, e), pow(x, e), p);
    lemma_pow_adds(x, e, e);
    assert(squared == pow(x, e + e) % p);
    if bit == 1 {
        lemma_small_mod(x as nat, p as nat);
        lemma_mul_mod_noop(pow(x, e + e), x, p);
        lemma_pow1(x);
        lemma_pow_adds(x, e + e, 1);
        assert(next == pow(x, (e + e + 1) as nat) % p);
    }
}

/// The product of two limb values equals the folded coefficients plus a multiple of `p`, because
/// `2^255 = p + 19`.
proof fn lemma_product_fold(a0: int, a1: int, a2: int, a3: int, a4: int, b0: int, b1: int, b2: int, b3: int, b4: int)
    ensures
        coefficients_value(a0, a1, a2, a3, a4) * coefficients_value(b0, b1, b2, b3, b4) == coefficients_value(
            a0 * b0 + 19 * (a1 * b4 + a2 * b3 + a3 * b2 + a4 * b1),
            a0 * b1 + a1 * b0 + 19 * (a2 * b4 + a3 * b3 + a4 * b2),
            a0 * b2 + a1 * b1 + a2 * b0 + 19 * (a3 * b4 + a4 * b3),
            a0 * b3 + a1 * b2 + a2 * b1 + a3 * b0 + 19 * (a4 * b4),
            a0 * b4 + a1 * b3 + a2 * b2 + a3 * b1 + a4 * b0,
        ) + p25519() * ((a1 * b4 + a2 * b3 + a3 * b2 + a4 * b1) + (a2 * b4 + a3 * b3 + a4 * b2) * 0x8_0000_0000_0000
            + (a3 * b4 + a4 * b3) * 0x40_0000_0000_0000_0000_0000_0000int
            + (a4 * b4) * 0x200_0000_0000_0000_0000_0000_0000_0000_0000_0000int),
{
    let a = coefficients_value(a0, a1, a2, a3, a4);
    let b = coefficients_value(b0, b1, b2, b3, b4);
    let (m00, m01, m02, m03, m04) = (a0 * b0, a0 * b1, a0 * b2, a0 * b3, a0 * b4);
    let (m10, m11, m12, m13, m14) = (a1 * b0, a1 * b1, a1 * b2, a1 * b3, a1 * b4);
    let (m20, m21, m22, m23, m24) = (a2 * b0, a2 * b1, a2 * b2, a2 * b3, a2 * b4);
    let (m30, m31, m32, m33, m34) = (a3 * b0, a3 * b1, a3 * b2, a3 * b3, a3 * b4);
    let (m40, m41, m42, m43, m44) = (a4 * b0, a4 * b1, a4 * b2, a4 * b3, a4 * b4);
    assert(a * b == a0 * b + (a1 * 0x8_0000_0000_0000int) * b
        + (a2 * 0x40_0000_0000_0000_0000_0000_0000int) * b
        + (a3 * 0x200_0000_0000_0000_0000_0000_0000_0000_0000_0000int) * b
        + (a4 * 0x1000_0000_0000_0000_0000_0000_0000_0000_0000_0000_0000_0000_0000int) * b) by (nonlinear_arith)
        requires a == a0 + a1 * 0x8_0000_0000_0000int + a2 * 0x40_0000_0000_0000_0000_0000_0000int
            + a3 * 0x200_0000_0000_0000_0000_0000_0000_0000_0000_0000int
            + a4 * 0x1000_0000_0000_0000_0000_0000_0000_0000_0000_0000_0000_0000_0000int;
    assert(a0 * b == m00 + m01 * 0x8_0000_0000_0000int + m02 * 0x40_0000_0000_0000_0000_0000_0000int
        + m03 * 0x200_0000_0000_0000_0000_0000_0000_0000_0000_0000int
        + m04 * 0x1000_0000_0000_0000_0000_0000_0000_0000_0000_0000_0000_0000_0000int) by (nonlinear_arith)
        requires b == b0 + b1 * 0x8_0000_0000_0000int + b2 * 0x40_0000_0000_0000_0000_0000_0000int
            + b3 * 0x200_0000_0000_0000_0000_0000_0000_0000_0000_0000int
            + b4 * 0x1000_0000_0000_0000_0000_0000_0000_0000_0000_0000_0000_0000_0000int, m00 == a0 * b0, m01 == a0 * b1, m02 == a0 * b2, m03 == a0 * b3, m04 == a0 * b4;
    assert((a1 * 0x8_0000_0000_0000int) * b == m10 * 0x8_0000_0000_0000int
        + m11 * 0x40_0000_0000_0000_0000_0000_0000int
        + m12 * 0x200_0000_0000_0000_0000_0000_0000_0000_0000_0000int
        + m13 * 0x1000_0000_0000_0000_0000_0000_0000_0000_0000_0000_0000_0000_0000int
        + m14 * 0x8000_0000_0000_0000_0000_0000_0000_0000_0000_0000_0000_0000_0000_0000_0000_0000int) by (nonlinear_arith)
        requires b == b0 + b1 * 0x8_0000_0000_0000int + b2 * 0x40_0000_0000_0000_0000_0000_0000int
            + b3 * 0x200_0000_0000_0000_0000_0000_0000_0000_0000_0000int
            + b4 * 0x1000_0000_0000_0000_0000_0000_0000_0000_0000_0000_0000_0000_0000int, m10 == a1 * b0, m11 == a1 * b1, m12 == a1 * b2, m13 == a1 * b3, m14 == a1 * b4;
    assert((a2 * 0x40_0000_0000_0000_0000_0000_0000int) * b == m20 * 0x40_0000_0000_0000_0000_0000_0000int
        + m21 * 0x200_0000_0000_0000_0000_0000_0000_0000_0000_0000int
        + m22 * 0x1000_0000_0000_0000_0000_0000_0000_0000_0000_0000_0000_0000_0000int
        + m23 * 0x8000_0000_0000_0000_0000_0000_0000_0000_0000_0000_0000_0000_0000_0000_0000_0000int
        + m24 * 0x4_0000_0000_0000_0000_0000_0000_0000_0000_0000_0000_0000_0000_0000_0000_0000_0000_0000_0000_0000int) by (nonlinear_arith)
        requires b == b0 + b1 * 0x8_0000_0000_0000int + b2 * 0x40_0000_0000_0000_0000_0000_0000int
            + b3 * 0x200_0000_0000_0000_0000_0000_0000_0000_0000_0000int
            + b4 * 0x1000_0000_0000_0000_0000_0000_0000_0000_0000_0000_0000_0000_0000int, m20 == a2 * b0, m21 == a2 * b1, m22 == a2 * b2, m23 == a2 * b3, m24 == a2 * b4;
    assert((a3 * 0x200_0000_0000_0000_0000_0000_0000_0000_0000_0000int) * b == m30 * 0x200_0000_0000_0000_0000_0000_0000_0000_0000_0000int
        + m31 * 0x1000_0000_0000_0000_0000_0000_0000_0000_0000_0000_0000_0000_0000int
        + m32 * 0x8000_0000_0000_0000_0000_0000_0000_0000_0000_0000_0000_0000_0000_0000_0000_0000int
        + m33 * 0x4_0000_0000_0000_0000_0000_0000_0000_0000_0000_0000_0000_0000_0000_0000_0000_0000_0000_0000_0000int
        + m34 * 0x20_0000_0000_0000_0000_0000_0000_0000_0000_0000_0000_0000_0000_0000_0000_0000_0000_0000_0000_0000_0000_0000_0000int) by (nonlinear_arith)
        requires b == b0 + b1 * 0x8_0000_0000_0000int + b2 * 0x40_0000_0000_0000_0000_0000_0000int
            + b3 * 0x200_0000_0000_0000_0000_0000_0000_0000_0000_0000int
            + b4 * 0x1000_0000_0000_0000_0000_0000_0000_0000_0000_0000_0000_0000_0000int, m30 == a3 * b0, m31 == a3 * b1, m32 == a3 * b2, m33 == a3 * b3, m34 == a3 * b4;
    assert((a4 * 0x1000_0000_0000_0000_0000_0000_0000_0000_0000_0000_0000_0000_0000int) * b == m40 * 0x1000_0000_0000_0000_0000_0000_0000_0000_0000_0000_0000_0000_0000int
        + m41 * 0x8000_0000_0000_0000_0000_0000_0000_0000_0000_0000_0000_0000_0000_0000_0000_0000int
        + m42 * 0x4_0000_0000_0000_0000_0000_0000_0000_0000_0000_0000_0000_0000_0000_0000_0000_0000_0000_0000_0000int
        + m43 * 0x20_0000_0000_0000_0000_0000_0000_0000_0000_0000_0000_0000_0000_0000_0000_0000_0000_0000_0000_0000_0000_0000_0000int
        + m44 * 0x100_0000_0000_0000_0000_0000_0000_0000_0000_0000_0000_0000_0000_0000_0000_0000_0000_0000_0000_0000_0000_0000_0000_0000_0000_0000int) by (nonlinear_arith)
        requires b == b0 + b1 * 0x8_0000_0000_0000int + b2 * 0x40_0000_0000_0000_0000_0000_0000int
            + b3 * 0x200_0000_0000_0000_0000_0000_0000_0000_0000_0000int
            + b4 * 0x1000_0000_0000_0000_0000_0000_0000_0000_0000_0000_0000_0000_0000int, m40 == a4 * b0, m41 == a4 * b1, m42 == a4 * b2, m43 == a4 * b3, m44 == a4 * b4;
    assert(a * b == m00 + m01 * 0x8_0000_0000_0000int + m02 * 0x40_0000_0000_0000_0000_0000_0000int
        + m03 * 0x200_0000_0000_0000_0000_0000_0000_0000_0000_0000int
        + m04 * 0x1000_0000_0000_0000_0000_0000_0000_0000_0000_0000_0000_0000_0000int
        + m10 * 0x8_0000_0000_0000int + m11 * 0x40_0000_0000_0000_0000_0000_0000int
        + m12 * 0x200_0000_0000_0000_0000_0000_0000_0000_0000_0000int
        + m13 * 0x1000_0000_0000_0000_0000_0000_0000_0000_0000_0000_0000_0000_0000int
        + m14 * 0x8000_0000_0000_0000_0000_0000_0000_0000_0000_0000_0000_0000_0000_0000_0000_0000int
        + m20 * 0x40_0000_0000_0000_0000_0000_0000int
        + m21 * 0x200_0000_0000_0000_0000_0000_0000_0000_0000_0000int
        + m22 * 0x1000_0000_0000_0000_0000_0000_0000_0000_0000_0000_0000_0000_0000int
        + m23 * 0x8000_0000_0000_0000_0000_0000_0000_0000_0000_0000_0000_0000_0000_0000_0000_0000int
        + m24 * 0x4_0000_0000_0000_0000_0000_0000_0000_0000_0000_0000_0000_0000_0000_0000_0000_0000_0000_0000_0000int
        + m30 * 0x200_0000_0000_0000_0000_0000_0000_0000_0000_0000int
        + m31 * 0x1000_0000_0000_0000_0000_0000_0000_0000_0000_0000_0000_0000_0000int
        + m32 * 0x8000_0000_0000_0000_0000_0000_0000_0000_0000_0000_0000_0000_0000_0000_0000_0000int
        + m33 * 0x4_0000_0000_0000_0000_0000_0000_0000_0000_0000_0000_0000_0000_0000_0000_0000_0000_0000_0000_0000int
        + m34 * 0x20_0000_0000_0000_0000_0000_0000_0000_0000_0000_0000_0000_0000_0000_0000_0000_0000_0000_0000_0000_0000_0000_0000int
        + m40 * 0x1000_0000_0000_0000_0000_0000_0000_0000_0000_0000_0000_0000_0000int
        + m41 * 0x8000_0000_0000_0000_0000_0000_0000_0000_0000_0000_0000_0000_0000_0000_0000_0000int
        + m42 * 0x4_0000_0000_0000_0000_0000_0000_0000_0000_0000_0000_0000_0000_0000_0000_0000_0000_0000_0000_0000int
        + m43 * 0x20_0000_0000_0000_0000_0000_0000_0000_0000_0000_0000_0000_0000_0000_0000_0000_0000_0000_0000_0000_0000_0000_0000int
        + m44 * 0x100_0000_0000_0000_0000_0000_0000_0000_0000_0000_0000_0000_0000_0000_0000_0000_0000_0000_0000_0000_0000_0000_0000_0000_0000_0000int);
}

/// A field element: five limbs whose value is taken modulo `p`.
pub struct FieldElement {
    limbs: [u64; 5],
}

impl FieldElement {
    /// The limbs are reduced.
    pub closed spec fn wf(&self) -> bool {
        reduced_limbs(self.limbs)
    }

    /// The residue the limbs stand for, in `[0, p)`.
    pub closed spec fn value(&self) -> int {
        limbs_value(self.limbs) % p25519()
    }

    /// Zero.
    pub fn zero() -> (zero: Self)
        ensures
            zero.wf(),
            zero.value() == 0,
    {
        FieldElement { limbs: [0, 0, 0, 0, 0] }
    }

    /// One.
    pub fn one() -> (one: Self)
        ensures
            one.wf(),
            one.value() == 1,
    {
        FieldElement { limbs: [1, 0, 0, 0, 0] }
    }

    /// A small constant.
    pub fn from_u64(value: u64) -> (element: Self)
        requires
            value < 0x8_0000_0000_0000,
        ensures
            element.wf(),
            element.value() == value,
    {
        FieldElement { limbs: [value, 0, 0, 0, 0] }
    }

    /// Carry coefficients into a field element.
    fn from_coefficients(coefficients: [u128; 5]) -> (element: Self)
        requires
            wide_bounded(coefficients),
        ensures
            element.wf(),
            element.value() == wide_value(coefficients) % p25519(),
    {
        FieldElement { limbs: reduce_coefficients(coefficients) }
    }

    /// `self + right` modulo `p`.
    pub fn add(&self, right: &Self) -> (sum: Self)
        requires
            self.wf(),
            right.wf(),
        ensures
            sum.wf(),
            sum.value() == field_add(self.value(), right.value()),
    {
        let a = self.limbs;
        let b = right.limbs;
        let coefficients = [
            a[0] as u128 + b[0] as u128,
            a[1] as u128 + b[1] as u128,
            a[2] as u128 + b[2] as u128,
            a[3] as u128 + b[3] as u128,
            a[4] as u128 + b[4] as u128,
        ];
        proof {
            assert(wide_value(coefficients) == limbs_value(a) + limbs_value(b));
            lemma_add_mod_noop(limbs_value(a), limbs_value(b), p25519());
        }
        Self::from_coefficients(coefficients)
    }

    /// `self - right` modulo `p`; adding `2p` first keeps every coefficient nonnegative.
    pub fn subtract(&self, right: &Self) -> (difference: Self)
        requires
            self.wf(),
            right.wf(),
        ensures
            difference.wf(),
            difference.value() == field_sub(self.value(), right.value()),
    {
        let a = self.limbs;
        let b = right.limbs;
        let coefficients = [
            a[0] as u128 + 2 * MODULUS_LIMBS[0] as u128 - b[0] as u128,
            a[1] as u128 + 2 * MODULUS_LIMBS[1] as u128 - b[1] as u128,
            a[2] as u128 + 2 * MODULUS_LIMBS[2] as u128 - b[2] as u128,
            a[3] as u128 + 2 * MODULUS_LIMBS[3] as u128 - b[3] as u128,
            a[4] as u128 + 2 * MODULUS_LIMBS[4] as u128 - b[4] as u128,
        ];
        proof {
            let p = p25519();
            assert(wide_value(coefficients) == limbs_value(a) - limbs_value(b) + 2 * p);
            lemma_mod_multiples_vanish(2, limbs_value(a) - limbs_value(b), p);
            lemma_sub_mod_noop(limbs_value(a), limbs_value(b), p);
        }
        Self::from_coefficients(coefficients)
    }
    /// `self * right` modulo `p`: terms at radix power five or more wrap times nineteen.
    pub fn multiply(&self, right: &Self) -> (product: Self)
        requires
            self.wf(),
            right.wf(),
        ensures
            product.wf(),
            product.value() == field_mul(self.value(), right.value()),
    {
        let a = self.limbs;
        let b = right.limbs;
        let m00 = limb_product(a[0], b[0]);
        let m01 = limb_product(a[0], b[1]);
        let m02 = limb_product(a[0], b[2]);
        let m03 = limb_product(a[0], b[3]);
        let m04 = limb_product(a[0], b[4]);
        let m10 = limb_product(a[1], b[0]);
        let m11 = limb_product(a[1], b[1]);
        let m12 = limb_product(a[1], b[2]);
        let m13 = limb_product(a[1], b[3]);
        let m14 = limb_product(a[1], b[4]);
        let m20 = limb_product(a[2], b[0]);
        let m21 = limb_product(a[2], b[1]);
        let m22 = limb_product(a[2], b[2]);
        let m23 = limb_product(a[2], b[3]);
        let m24 = limb_product(a[2], b[4]);
        let m30 = limb_product(a[3], b[0]);
        let m31 = limb_product(a[3], b[1]);
        let m32 = limb_product(a[3], b[2]);
        let m33 = limb_product(a[3], b[3]);
        let m34 = limb_product(a[3], b[4]);
        let m40 = limb_product(a[4], b[0]);
        let m41 = limb_product(a[4], b[1]);
        let m42 = limb_product(a[4], b[2]);
        let m43 = limb_product(a[4], b[3]);
        let m44 = limb_product(a[4], b[4]);
        let coefficients = [
            m00 + 19 * (m14 + m23 + m32 + m41),
            m01 + m10 + 19 * (m24 + m33 + m42),
            m02 + m11 + m20 + 19 * (m34 + m43),
            m03 + m12 + m21 + m30 + 19 * m44,
            m04 + m13 + m22 + m31 + m40,
        ];
        proof {
            let p = p25519();
            let (a0, a1, a2, a3, a4) = (a[0] as int, a[1] as int, a[2] as int, a[3] as int, a[4] as int);
            let (b0, b1, b2, b3, b4) = (b[0] as int, b[1] as int, b[2] as int, b[3] as int, b[4] as int);
            lemma_product_fold(a0, a1, a2, a3, a4, b0, b1, b2, b3, b4);
            let q = (a1 * b4 + a2 * b3 + a3 * b2 + a4 * b1) + (a2 * b4 + a3 * b3 + a4 * b2) * 0x8_0000_0000_0000
                + (a3 * b4 + a4 * b3) * 0x40_0000_0000_0000_0000_0000_0000int
                + (a4 * b4) * 0x200_0000_0000_0000_0000_0000_0000_0000_0000_0000int;
            assert(limbs_value(a) * limbs_value(b) == wide_value(coefficients) + p * q);
            lemma_mod_multiples_vanish(q, wide_value(coefficients), p);
            lemma_mul_mod_noop(limbs_value(a), limbs_value(b), p);
        }
        Self::from_coefficients(coefficients)
    }

    /// `self * self` modulo `p`.
    pub fn square(&self) -> (square: Self)
        requires
            self.wf(),
        ensures
            square.wf(),
            square.value() == field_mul(self.value(), self.value()),
    {
        self.multiply(self)
    }

    /// `self * value` modulo `p` for a public constant.
    pub fn multiply_small(&self, value: u64) -> (product: Self)
        requires
            self.wf(),
        ensures
            product.wf(),
            product.value() == field_mul(self.value(), value as int),
    {
        let a = self.limbs;
        let v = value as u128;
        proof {
            assert forall|x: u64| x < 0x10_0000_0000_0000 implies #[trigger] (x * value) < 0x100_0000_0000_0000_0000_0000_0000_0000 by {
                assert(x * value < 0x100_0000_0000_0000_0000_0000_0000_0000) by (nonlinear_arith)
                    requires x < 0x10_0000_0000_0000, value < 0x1_0000_0000_0000_0000int;
            }
            assert(a[0] * value < 0x100_0000_0000_0000_0000_0000_0000_0000);
            assert(a[1] * value < 0x100_0000_0000_0000_0000_0000_0000_0000);
            assert(a[2] * value < 0x100_0000_0000_0000_0000_0000_0000_0000);
            assert(a[3] * value < 0x100_0000_0000_0000_0000_0000_0000_0000);
            assert(a[4] * value < 0x100_0000_0000_0000_0000_0000_0000_0000);
        }
        let coefficients = [a[0] as u128 * v, a[1] as u128 * v, a[2] as u128 * v, a[3] as u128 * v, a[4] as u128 * v];
        proof {
            let p = p25519();
            let (a0, a1, a2, a3, a4) = (a[0] as int, a[1] as int, a[2] as int, a[3] as int, a[4] as int);
            let w = value as int;
            assert(limbs_value(a) * w == wide_value(coefficients)) by (nonlinear_arith)
                requires
                    limbs_value(a) == a0 + a1 * 0x8_0000_0000_0000 + a2 * 0x40_0000_0000_0000_0000_0000_0000int
                        + a3 * 0x200_0000_0000_0000_0000_0000_0000_0000_0000_0000int
                        + a4 * 0x1000_0000_0000_0000_0000_0000_0000_0000_0000_0000_0000_0000_0000int,
                    wide_value(coefficients) == (a0 * w) + (a1 * w) * 0x8_0000_0000_0000
                        + (a2 * w) * 0x40_0000_0000_0000_0000_0000_0000int
                        + (a3 * w) * 0x200_0000_0000_0000_0000_0000_0000_0000_0000_0000int
                        + (a4 * w) * 0x1000_0000_0000_0000_0000_0000_0000_0000_0000_0000_0000_0000_0000int;
            lemma_mul_mod_noop(limbs_value(a), w, p);
            lemma_small_mod(w as nat, p as nat);
        }
        Self::from_coefficients(coefficients)
    }
    /// Decode a u-coordinate: little-endian, bit 255 ignored, any value accepted as its residue.
    pub fn from_bytes(bytes: &[u8; 32]) -> (element: Self)
        ensures
            element.wf(),
            element.value() == (le_spec(bytes@) % 0x8000_0000_0000_0000_0000_0000_0000_0000_0000_0000_0000_0000_0000_0000_0000_0000int) % p25519(),
    {
        let w0 = load_word(bytes, 0);
        let w1 = load_word(bytes, 8);
        let w2 = load_word(bytes, 16);
        let w3 = load_word(bytes, 24);
        // The limbs take bits 0..51, 51..102, 102..153, 153..204 and 204..255 of the words.
        let limbs = [
            w0 % 0x8_0000_0000_0000,
            w0 / 0x8_0000_0000_0000 + (w1 % 0x40_0000_0000) * 0x2000,
            w1 / 0x40_0000_0000 + (w2 % 0x200_0000) * 0x400_0000,
            w2 / 0x200_0000 + (w3 % 0x1000) * 0x80_0000_0000,
            (w3 / 0x1000) % 0x8_0000_0000_0000,
        ];
        proof {
            lemma_le_words(bytes@);
            let two255 = 0x8000_0000_0000_0000_0000_0000_0000_0000_0000_0000_0000_0000_0000_0000_0000_0000int;
            let low = w0 + w1 * 0x1_0000_0000_0000_0000int + w2 * 0x1_0000_0000_0000_0000_0000_0000_0000_0000int
                + (w3 % 0x8000_0000_0000_0000) * 0x1_0000_0000_0000_0000_0000_0000_0000_0000_0000_0000_0000_0000int;
            assert(w0 == w0 % 0x8_0000_0000_0000 + (w0 / 0x8_0000_0000_0000) * 0x8_0000_0000_0000);
            assert(w1 == w1 % 0x40_0000_0000 + (w1 / 0x40_0000_0000) * 0x40_0000_0000);
            assert(w2 == w2 % 0x200_0000 + (w2 / 0x200_0000) * 0x200_0000);
            assert(w3 % 0x8000_0000_0000_0000 == w3 % 0x1000 + ((w3 / 0x1000) % 0x8_0000_0000_0000) * 0x1000);
            assert(w3 == w3 % 0x8000_0000_0000_0000 + (w3 / 0x8000_0000_0000_0000) * 0x8000_0000_0000_0000);
            assert(limbs_value(limbs) == low);
            assert(le_spec(bytes@) == low + two255 * (w3 / 0x8000_0000_0000_0000));
            lemma_mod_multiples_vanish((w3 / 0x8000_0000_0000_0000) as int, low, two255);
            lemma_small_mod(low as nat, two255 as nat);
        }
        FieldElement { limbs }
    }

    /// The canonical 32-byte little-endian encoding of the residue.
    pub fn to_bytes(&self) -> (bytes: [u8; 32])
        ensures
            le_spec(bytes@) == self.value(),
    {
        let c = canonical_limbs(self.limbs);
        let w0 = c[0] + (c[1] % 0x2000) * 0x8_0000_0000_0000;
        let w1 = c[1] / 0x2000 + (c[2] % 0x400_0000) * 0x40_0000_0000;
        let w2 = c[2] / 0x400_0000 + (c[3] % 0x80_0000_0000) * 0x200_0000;
        let w3 = c[3] / 0x80_0000_0000 + c[4] * 0x1000;
        let b0 = word_bytes(w0);
        let b1 = word_bytes(w1);
        let b2 = word_bytes(w2);
        let b3 = word_bytes(w3);
        let bytes = [
            b0[0], b0[1], b0[2], b0[3], b0[4], b0[5], b0[6], b0[7],
            b1[0], b1[1], b1[2], b1[3], b1[4], b1[5], b1[6], b1[7],
            b2[0], b2[1], b2[2], b2[3], b2[4], b2[5], b2[6], b2[7],
            b3[0], b3[1], b3[2], b3[3], b3[4], b3[5], b3[6], b3[7],
        ];
        proof {
            assert(bytes@.subrange(0, 8) =~= b0@);
            assert(bytes@.subrange(8, 16) =~= b1@);
            assert(bytes@.subrange(16, 24) =~= b2@);
            assert(bytes@.subrange(24, 32) =~= b3@);
            lemma_le_words(bytes@);
            assert(c[1] == c[1] % 0x2000 + (c[1] / 0x2000) * 0x2000);
            assert(c[2] == c[2] % 0x400_0000 + (c[2] / 0x400_0000) * 0x400_0000);
            assert(c[3] == c[3] % 0x80_0000_0000 + (c[3] / 0x80_0000_0000) * 0x80_0000_0000);
            assert(le_spec(bytes@) == limbs_value(c));
        }
        bytes
    }

    /// Exchange the two elements when `swap` is one, keep them when it is zero, through the
    /// mask `0 - swap` so the work done does not depend on `swap`.
    pub fn conditional_swap(swap: u64, left: &mut Self, right: &mut Self)
        requires
            swap <= 1,
        ensures
            swap == 0 ==> *final(left) == *old(left) && *final(right) == *old(right),
            swap == 1 ==> *final(left) == *old(right) && *final(right) == *old(left),
    {
        let mask = 0u64.wrapping_sub(swap);
        let l = left.limbs;
        let r = right.limbs;
        let (l0, r0) = swap_limbs(mask, l[0], r[0]);
        let (l1, r1) = swap_limbs(mask, l[1], r[1]);
        let (l2, r2) = swap_limbs(mask, l[2], r[2]);
        let (l3, r3) = swap_limbs(mask, l[3], r[3]);
        let (l4, r4) = swap_limbs(mask, l[4], r[4]);
        left.limbs = [l0, l1, l2, l3, l4];
        right.limbs = [r0, r1, r2, r3, r4];
        proof {
            if swap == 0 {
                assert(left.limbs =~= l);
                assert(right.limbs =~= r);
            } else {
                assert(left.limbs =~= r);
                assert(right.limbs =~= l);
            }
        }
    }
    /// `self^(p - 2)` by a fixed square-and-multiply schedule over the public exponent; the
    /// inverse of a nonzero element.
    pub fn invert(&self) -> (inverse: Self)
        requires
            self.wf(),
        ensures
            inverse.wf(),
            inverse.value() == pow(self.value(), (p25519() - 2) as nat) % p25519(),
    {
        let mut result = Self::one();
        let mut remaining: usize = 255;
        proof {
            lemma_pow0(self.value());
        }
        while remaining > 0
            invariant
                remaining <= 255,
                self.wf(),
                result.wf(),
                result.value() == pow(self.value(), exponent_prefix(remaining as nat)) % p25519(),
            decreases remaining,
        {
            let bit_index = remaining - 1;
            let ghost e = exponent_prefix(remaining as nat);
            result = result.square();
            let ghost squared = result.value();
            let exponent_bit = inverse_exponent_bit(bit_index);
            if exponent_bit == 1 {
                result = result.multiply(self);
            }
            proof {
                lemma_power_step(self.value(), e, exponent_bit as int, squared, result.value());
            }
            remaining = bit_index;
        }
        proof {
            lemma_exponent_value();
        }
        result
    }
}

} // verus!
