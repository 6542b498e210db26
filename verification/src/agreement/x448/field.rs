//! Arithmetic modulo `p = 2^448 - 2^224 - 1` (RFC 7748 §5) on eight limbs of 56 bits.
//!
//! A field element is `l0 + l1 2^56 + ... + l7 2^392`, taken modulo `p`. A carry out of the top
//! limb wraps into limbs zero and four, because `2^448 = 2^224 + 1 (mod p)`. Unlike X25519 the
//! 56-byte encoding has no spare bit: all 448 bits are read.

use vstd::arithmetic::div_mod::{
    lemma_add_mod_noop, lemma_mod_multiples_vanish, lemma_mul_mod_noop, lemma_mul_mod_noop_right, lemma_small_mod,
    lemma_sub_mod_noop,
};
use vstd::arithmetic::power::{lemma_pow0, lemma_pow1, lemma_pow_adds, pow};
use vstd::arithmetic::power2::{lemma2_to64, lemma2_to64_rest, lemma_pow2_adds, lemma_pow2_unfold, pow2};
use vstd::prelude::*;

use crate::bits::{le_spec, lemma_le_concat, pow256_spec};

verus! {
/// `p = 2^448 - 2^224 - 1`.
pub open spec fn p448() -> int {
    0xffff_ffff_ffff_ffff_ffff_ffff_ffff_ffff_ffff_ffff_ffff_ffff_ffff_fffe_ffff_ffff_ffff_ffff_ffff_ffff_ffff_ffff_ffff_ffff_ffff_ffff_ffff_ffffint
}
/// `(a + b) mod p`.
pub open spec fn field_add(a: int, b: int) -> int {
    (a + b) % p448()
}

/// `(a - b) mod p`.
pub open spec fn field_sub(a: int, b: int) -> int {
    (a - b) % p448()
}

/// `(a * b) mod p`.
pub open spec fn field_mul(a: int, b: int) -> int {
    (a * b) % p448()
}
/// Adding then subtracting the same residue gives the first residue back.
pub proof fn lemma_add_then_subtract(a: int, b: int)
    requires
        0 <= a < p448(),
        0 <= b < p448(),
    ensures
        field_sub(field_add(a, b), b) == a,
{
    let p = p448();
    lemma_small_mod(b as nat, p as nat);
    lemma_small_mod(a as nat, p as nat);
    lemma_sub_mod_noop(a + b, b, p);
}

/// Multiplication of residues commutes.
pub proof fn lemma_multiply_commutes(a: int, b: int)
    ensures
        field_mul(a, b) == field_mul(b, a),
{
    assert(a * b == b * a) by (nonlinear_arith);
}

/// Multiplication distributes over addition of residues.
pub proof fn lemma_multiply_distributes(a: int, b: int, c: int)
    ensures
        field_mul(a, field_add(b, c)) == field_add(field_mul(a, b), field_mul(a, c)),
{
    let p = p448();
    lemma_mul_mod_noop_right(a, b + c, p);
    assert(a * (b + c) == a * b + a * c) by (nonlinear_arith);
    lemma_add_mod_noop(a * b, a * c, p);
}

/// The value of eight coefficients at radix `2^56`.
pub open spec fn coefficients_value(c0: int, c1: int, c2: int, c3: int, c4: int, c5: int, c6: int, c7: int) -> int {
    c0 + c1 * 0x100_0000_0000_0000int + c2 * 0x1_0000_0000_0000_0000_0000_0000_0000int
        + c3 * 0x100_0000_0000_0000_0000_0000_0000_0000_0000_0000_0000int
        + c4 * 0x1_0000_0000_0000_0000_0000_0000_0000_0000_0000_0000_0000_0000_0000_0000int
        + c5 * 0x100_0000_0000_0000_0000_0000_0000_0000_0000_0000_0000_0000_0000_0000_0000_0000_0000_0000int
        + c6 * 0x1_0000_0000_0000_0000_0000_0000_0000_0000_0000_0000_0000_0000_0000_0000_0000_0000_0000_0000_0000_0000_0000int
        + c7 * 0x100_0000_0000_0000_0000_0000_0000_0000_0000_0000_0000_0000_0000_0000_0000_0000_0000_0000_0000_0000_0000_0000_0000_0000_0000int
}
/// The value of a limb array.
pub open spec fn limbs_value(l: [u64; 8]) -> int {
    coefficients_value(l[0] as int, l[1] as int, l[2] as int, l[3] as int, l[4] as int, l[5] as int,
        l[6] as int, l[7] as int)
}

/// The value of a coefficient array.
pub open spec fn wide_value(c: [u128; 8]) -> int {
    coefficients_value(c[0] as int, c[1] as int, c[2] as int, c[3] as int, c[4] as int, c[5] as int,
        c[6] as int, c[7] as int)
}
/// Every limb is below `2^56`.
pub open spec fn reduced_limbs(l: [u64; 8]) -> bool {
    l[0] < 0x100_0000_0000_0000 && l[1] < 0x100_0000_0000_0000 && l[2] < 0x100_0000_0000_0000
        && l[3] < 0x100_0000_0000_0000 && l[4] < 0x100_0000_0000_0000 && l[5] < 0x100_0000_0000_0000
        && l[6] < 0x100_0000_0000_0000 && l[7] < 0x100_0000_0000_0000
}

/// Coefficients small enough for three carry passes.
pub open spec fn wide_bounded(c: [u128; 8]) -> bool {
    c[0] < 0x100_0000_0000_0000_0000_0000_0000_0000 && c[1] < 0x100_0000_0000_0000_0000_0000_0000_0000
        && c[2] < 0x100_0000_0000_0000_0000_0000_0000_0000 && c[3] < 0x100_0000_0000_0000_0000_0000_0000_0000
        && c[4] < 0x100_0000_0000_0000_0000_0000_0000_0000 && c[5] < 0x100_0000_0000_0000_0000_0000_0000_0000
        && c[6] < 0x100_0000_0000_0000_0000_0000_0000_0000 && c[7] < 0x100_0000_0000_0000_0000_0000_0000_0000
}
/// One carry pass: each coefficient keeps its low 56 bits and passes the rest up; the top carry
/// wraps into limbs zero and four.
#[verifier::rlimit(50)]
fn carry_pass(c: [u128; 8]) -> (out: [u128; 8])
    requires
        wide_bounded(c),
    ensures
        out[1] < 0x100_0000_0000_0000 && out[2] < 0x100_0000_0000_0000 && out[3] < 0x100_0000_0000_0000
            && out[5] < 0x100_0000_0000_0000 && out[6] < 0x100_0000_0000_0000
            && out[7] < 0x100_0000_0000_0000,
        out[0] < 0x8_0000_0000_0000_0000 && out[4] < 0x8_0000_0000_0000_0000,
        c[0] < 0x8_0000_0000_0000_0000 && c[4] < 0x8_0000_0000_0000_0000 && c[1] < 0x100_0000_0000_0000
            && c[2] < 0x100_0000_0000_0000
            && c[3] < 0x100_0000_0000_0000 && c[5] < 0x100_0000_0000_0000 && c[6] < 0x100_0000_0000_0000
                && c[7] < 0x100_0000_0000_0000
            ==> out[0] <= 0x100_0000_0000_0000 && out[4] <= 0x100_0000_0000_0000
            && ((out[0] == 0x100_0000_0000_0000 || out[4] == 0x100_0000_0000_0000) ==> out[7] == 0),
        c[0] <= 0x100_0000_0000_0000 && c[4] <= 0x100_0000_0000_0000 && c[1] < 0x100_0000_0000_0000
            && c[2] < 0x100_0000_0000_0000 && c[3] < 0x100_0000_0000_0000 && c[5] < 0x100_0000_0000_0000
            && c[6] < 0x100_0000_0000_0000 && c[7] < 0x100_0000_0000_0000
                && ((c[0] == 0x100_0000_0000_0000 || c[4] == 0x100_0000_0000_0000) ==> c[7] == 0)
            ==> out[0] < 0x100_0000_0000_0000 && out[4] < 0x100_0000_0000_0000,
        wide_value(out) % p448() == wide_value(c) % p448(),
{
    let d0 = c[0];
    let k0 = d0 / 0x100_0000_0000_0000;
    let e0 = d0 % 0x100_0000_0000_0000;
    let d1 = c[1] + k0;
    let k1 = d1 / 0x100_0000_0000_0000;
    let e1 = d1 % 0x100_0000_0000_0000;
    let d2 = c[2] + k1;
    let k2 = d2 / 0x100_0000_0000_0000;
    let e2 = d2 % 0x100_0000_0000_0000;
    let d3 = c[3] + k2;
    let k3 = d3 / 0x100_0000_0000_0000;
    let e3 = d3 % 0x100_0000_0000_0000;
    let d4 = c[4] + k3;
    let k4 = d4 / 0x100_0000_0000_0000;
    let e4 = d4 % 0x100_0000_0000_0000;
    let d5 = c[5] + k4;
    let k5 = d5 / 0x100_0000_0000_0000;
    let e5 = d5 % 0x100_0000_0000_0000;
    let d6 = c[6] + k5;
    let k6 = d6 / 0x100_0000_0000_0000;
    let e6 = d6 % 0x100_0000_0000_0000;
    let d7 = c[7] + k6;
    let k7 = d7 / 0x100_0000_0000_0000;
    let e7 = d7 % 0x100_0000_0000_0000;
    let out = [e0 + k7, e1, e2, e3, e4 + k7, e5, e6, e7];
    proof {
        assert(d0 == e0 + k0 * 0x100_0000_0000_0000);
        assert(d1 == e1 + k1 * 0x100_0000_0000_0000);
        assert(d2 == e2 + k2 * 0x100_0000_0000_0000);
        assert(d3 == e3 + k3 * 0x100_0000_0000_0000);
        assert(d4 == e4 + k4 * 0x100_0000_0000_0000);
        assert(d5 == e5 + k5 * 0x100_0000_0000_0000);
        assert(d6 == e6 + k6 * 0x100_0000_0000_0000);
        assert(d7 == e7 + k7 * 0x100_0000_0000_0000);
        assert(out[0] == e0 + k7 && out[1] == e1 && out[2] == e2 && out[3] == e3 && out[4] == e4 + k7
            && out[5] == e5 && out[6] == e6 && out[7] == e7);
        assert(wide_value(out) == wide_value(c) - (k7 as int) * 0xffff_ffff_ffff_ffff_ffff_ffff_ffff_ffff_ffff_ffff_ffff_ffff_ffff_fffe_ffff_ffff_ffff_ffff_ffff_ffff_ffff_ffff_ffff_ffff_ffff_ffff_ffff_ffffint);
        lemma_mod_multiples_vanish(-(k7 as int), wide_value(out) + (k7 as int) * p448(), p448());
        assert(p448() * -(k7 as int) + (wide_value(out)
            + (k7 as int) * p448()) == wide_value(out)) by (nonlinear_arith);
    }
    out
}

/// Carry 128-bit coefficients into limbs below `2^56`, keeping the value modulo `p`.
pub fn reduce_coefficients(coefficients: [u128; 8]) -> (limbs: [u64; 8])
    requires
        wide_bounded(coefficients),
    ensures
        reduced_limbs(limbs),
        limbs_value(limbs) % p448() == wide_value(coefficients) % p448(),
{
    let first = carry_pass(coefficients);
    let second = carry_pass(first);
    let third = carry_pass(second);
    [third[0] as u64, third[1] as u64, third[2] as u64, third[3] as u64, third[4] as u64, third[5] as u64,
        third[6] as u64, third[7] as u64]
}

/// `p` in limbs: all `2^56 - 1` except limb four, one less.
pub const MODULUS_LIMBS: [u64; 8] = [
    0xff_ffff_ffff_ffff,
    0xff_ffff_ffff_ffff,
    0xff_ffff_ffff_ffff,
    0xff_ffff_ffff_ffff,
    0xff_ffff_ffff_fffe,
    0xff_ffff_ffff_ffff,
    0xff_ffff_ffff_ffff,
    0xff_ffff_ffff_ffff,
];

/// The product of two limbs below `2^56`.
fn limb_product(x: u64, y: u64) -> (product: u128)
    requires
        x < 0x100_0000_0000_0000,
        y < 0x100_0000_0000_0000,
    ensures
        product == x * y,
        product < 0x1_0000_0000_0000_0000_0000_0000_0000,
{
    assert(x * y < 0x1_0000_0000_0000_0000_0000_0000_0000) by (nonlinear_arith)
        requires x < 0x100_0000_0000_0000, y < 0x100_0000_0000_0000;
    x as u128 * y as u128
}

/// The product of two limb values equals the folded coefficients plus a multiple of `p`,
/// because `2^448 = p + 2^224 + 1`.
proof fn lemma_product_fold(a0: int, a1: int, a2: int, a3: int, a4: int, a5: int, a6: int, a7: int, b0: int,
    b1: int, b2: int, b3: int, b4: int, b5: int, b6: int, b7: int)
    ensures
        coefficients_value(a0, a1, a2, a3, a4, a5, a6, a7) * coefficients_value(b0, b1, b2, b3, b4, b5, b6, b7)
            == coefficients_value(
                (a0 * b0) + (a1 * b7) + (a2 * b6) + (a3 * b5) + (a4 * b4) + (a5 * b3) + (a6 * b2) + (a7 * b1)
                    + (a5 * b7) + (a6 * b6) + (a7 * b5),
                (a0 * b1) + (a1 * b0) + (a2 * b7) + (a3 * b6) + (a4 * b5) + (a5 * b4) + (a6 * b3) + (a7 * b2)
                    + (a6 * b7) + (a7 * b6),
                (a0 * b2) + (a1 * b1) + (a2 * b0) + (a3 * b7) + (a4 * b6) + (a5 * b5) + (a6 * b4) + (a7 * b3)
                    + (a7 * b7),
                (a0 * b3) + (a1 * b2) + (a2 * b1) + (a3 * b0) + (a4 * b7) + (a5 * b6) + (a6 * b5) + (a7 * b4),
                (a0 * b4) + (a1 * b3) + (a2 * b2) + (a3 * b1) + (a4 * b0) + (a1 * b7) + (a2 * b6) + (a3 * b5)
                    + (a4 * b4) + (a5 * b3) + (a6 * b2) + (a7 * b1) + 2 * (a5 * b7) + 2 * (a6 * b6)
                    + 2 * (a7 * b5),
                (a0 * b5) + (a1 * b4) + (a2 * b3) + (a3 * b2) + (a4 * b1) + (a5 * b0) + (a2 * b7) + (a3 * b6)
                    + (a4 * b5) + (a5 * b4) + (a6 * b3) + (a7 * b2) + 2 * (a6 * b7) + 2 * (a7 * b6),
                (a0 * b6) + (a1 * b5) + (a2 * b4) + (a3 * b3) + (a4 * b2) + (a5 * b1) + (a6 * b0) + (a3 * b7)
                    + (a4 * b6) + (a5 * b5) + (a6 * b4) + (a7 * b3) + 2 * (a7 * b7),
                (a0 * b7) + (a1 * b6) + (a2 * b5) + (a3 * b4) + (a4 * b3) + (a5 * b2) + (a6 * b1) + (a7 * b0)
                    + (a4 * b7) + (a5 * b6) + (a6 * b5) + (a7 * b4),
        ) + p448() * (((a1 * b7) + (a2 * b6) + (a3 * b5) + (a4 * b4) + (a5 * b3) + (a6 * b2) + (a7 * b1))
            + ((a2 * b7) + (a3 * b6) + (a4 * b5) + (a5 * b4) + (a6 * b3) + (a7 * b2)) * 0x100_0000_0000_0000int
            + ((a3 * b7) + (a4 * b6) + (a5 * b5) + (a6 * b4) + (a7 * b3)) * 0x1_0000_0000_0000_0000_0000_0000_0000int
            + ((a4 * b7) + (a5 * b6) + (a6 * b5)
                + (a7 * b4)) * 0x100_0000_0000_0000_0000_0000_0000_0000_0000_0000_0000int
            + ((a5 * b7) + (a6 * b6)
                + (a7 * b5)) * 0x1_0000_0000_0000_0000_0000_0000_0000_0000_0000_0000_0000_0000_0000_0000int
            + ((a5 * b7) + (a6 * b6) + (a7 * b5))
            + ((a6 * b7)
                + (a7 * b6)) * 0x100_0000_0000_0000_0000_0000_0000_0000_0000_0000_0000_0000_0000_0000_0000_0000_0000_0000int
            + ((a6 * b7) + (a7 * b6)) * 0x100_0000_0000_0000int
            + ((a7 * b7)) * 0x1_0000_0000_0000_0000_0000_0000_0000_0000_0000_0000_0000_0000_0000_0000_0000_0000_0000_0000_0000_0000_0000int
            + ((a7 * b7)) * 0x1_0000_0000_0000_0000_0000_0000_0000int),
{
    let a = coefficients_value(a0, a1, a2, a3, a4, a5, a6, a7);
    let b = coefficients_value(b0, b1, b2, b3, b4, b5, b6, b7);
    let (m00, m01, m02, m03, m04, m05, m06, m07) = (a0 * b0, a0 * b1, a0 * b2, a0 * b3, a0 * b4, a0 * b5,
        a0 * b6, a0 * b7);
    let (m10, m11, m12, m13, m14, m15, m16, m17) = (a1 * b0, a1 * b1, a1 * b2, a1 * b3, a1 * b4, a1 * b5,
        a1 * b6, a1 * b7);
    let (m20, m21, m22, m23, m24, m25, m26, m27) = (a2 * b0, a2 * b1, a2 * b2, a2 * b3, a2 * b4, a2 * b5,
        a2 * b6, a2 * b7);
    let (m30, m31, m32, m33, m34, m35, m36, m37) = (a3 * b0, a3 * b1, a3 * b2, a3 * b3, a3 * b4, a3 * b5,
        a3 * b6, a3 * b7);
    let (m40, m41, m42, m43, m44, m45, m46, m47) = (a4 * b0, a4 * b1, a4 * b2, a4 * b3, a4 * b4, a4 * b5,
        a4 * b6, a4 * b7);
    let (m50, m51, m52, m53, m54, m55, m56, m57) = (a5 * b0, a5 * b1, a5 * b2, a5 * b3, a5 * b4, a5 * b5,
        a5 * b6, a5 * b7);
    let (m60, m61, m62, m63, m64, m65, m66, m67) = (a6 * b0, a6 * b1, a6 * b2, a6 * b3, a6 * b4, a6 * b5,
        a6 * b6, a6 * b7);
    let (m70, m71, m72, m73, m74, m75, m76, m77) = (a7 * b0, a7 * b1, a7 * b2, a7 * b3, a7 * b4, a7 * b5,
        a7 * b6, a7 * b7);
    assert(a * b == a0 * b + (a1 * 0x100_0000_0000_0000int) * b
        + (a2 * 0x1_0000_0000_0000_0000_0000_0000_0000int) * b
        + (a3 * 0x100_0000_0000_0000_0000_0000_0000_0000_0000_0000_0000int) * b
        + (a4 * 0x1_0000_0000_0000_0000_0000_0000_0000_0000_0000_0000_0000_0000_0000_0000int) * b
        + (a5 * 0x100_0000_0000_0000_0000_0000_0000_0000_0000_0000_0000_0000_0000_0000_0000_0000_0000_0000int) * b
        + (a6 * 0x1_0000_0000_0000_0000_0000_0000_0000_0000_0000_0000_0000_0000_0000_0000_0000_0000_0000_0000_0000_0000_0000int) * b
        + (a7 * 0x100_0000_0000_0000_0000_0000_0000_0000_0000_0000_0000_0000_0000_0000_0000_0000_0000_0000_0000_0000_0000_0000_0000_0000_0000int) * b) by (nonlinear_arith)
        requires a == a0 + a1 * 0x100_0000_0000_0000int + a2 * 0x1_0000_0000_0000_0000_0000_0000_0000int
            + a3 * 0x100_0000_0000_0000_0000_0000_0000_0000_0000_0000_0000int
            + a4 * 0x1_0000_0000_0000_0000_0000_0000_0000_0000_0000_0000_0000_0000_0000_0000int
            + a5 * 0x100_0000_0000_0000_0000_0000_0000_0000_0000_0000_0000_0000_0000_0000_0000_0000_0000_0000int
            + a6 * 0x1_0000_0000_0000_0000_0000_0000_0000_0000_0000_0000_0000_0000_0000_0000_0000_0000_0000_0000_0000_0000_0000int
            + a7 * 0x100_0000_0000_0000_0000_0000_0000_0000_0000_0000_0000_0000_0000_0000_0000_0000_0000_0000_0000_0000_0000_0000_0000_0000_0000int;
    assert(a0 * b == m00 + m01 * 0x100_0000_0000_0000int + m02 * 0x1_0000_0000_0000_0000_0000_0000_0000int
        + m03 * 0x100_0000_0000_0000_0000_0000_0000_0000_0000_0000_0000int
        + m04 * 0x1_0000_0000_0000_0000_0000_0000_0000_0000_0000_0000_0000_0000_0000_0000int
        + m05 * 0x100_0000_0000_0000_0000_0000_0000_0000_0000_0000_0000_0000_0000_0000_0000_0000_0000_0000int
        + m06 * 0x1_0000_0000_0000_0000_0000_0000_0000_0000_0000_0000_0000_0000_0000_0000_0000_0000_0000_0000_0000_0000_0000int
        + m07 * 0x100_0000_0000_0000_0000_0000_0000_0000_0000_0000_0000_0000_0000_0000_0000_0000_0000_0000_0000_0000_0000_0000_0000_0000_0000int) by (nonlinear_arith)
        requires b == b0 + b1 * 0x100_0000_0000_0000int + b2 * 0x1_0000_0000_0000_0000_0000_0000_0000int
            + b3 * 0x100_0000_0000_0000_0000_0000_0000_0000_0000_0000_0000int
            + b4 * 0x1_0000_0000_0000_0000_0000_0000_0000_0000_0000_0000_0000_0000_0000_0000int
            + b5 * 0x100_0000_0000_0000_0000_0000_0000_0000_0000_0000_0000_0000_0000_0000_0000_0000_0000_0000int
            + b6 * 0x1_0000_0000_0000_0000_0000_0000_0000_0000_0000_0000_0000_0000_0000_0000_0000_0000_0000_0000_0000_0000_0000int
            + b7 * 0x100_0000_0000_0000_0000_0000_0000_0000_0000_0000_0000_0000_0000_0000_0000_0000_0000_0000_0000_0000_0000_0000_0000_0000_0000int, m00 == a0 * b0, m01 == a0 * b1, m02 == a0 * b2, m03 == a0 * b3, m04 == a0 * b4, m05 == a0 * b5, m06 == a0 * b6, m07 == a0 * b7;
    assert((a1 * 0x100_0000_0000_0000int) * b == m10 * 0x100_0000_0000_0000int
        + m11 * 0x1_0000_0000_0000_0000_0000_0000_0000int
        + m12 * 0x100_0000_0000_0000_0000_0000_0000_0000_0000_0000_0000int
        + m13 * 0x1_0000_0000_0000_0000_0000_0000_0000_0000_0000_0000_0000_0000_0000_0000int
        + m14 * 0x100_0000_0000_0000_0000_0000_0000_0000_0000_0000_0000_0000_0000_0000_0000_0000_0000_0000int
        + m15 * 0x1_0000_0000_0000_0000_0000_0000_0000_0000_0000_0000_0000_0000_0000_0000_0000_0000_0000_0000_0000_0000_0000int
        + m16 * 0x100_0000_0000_0000_0000_0000_0000_0000_0000_0000_0000_0000_0000_0000_0000_0000_0000_0000_0000_0000_0000_0000_0000_0000_0000int
        + m17 * 0x1_0000_0000_0000_0000_0000_0000_0000_0000_0000_0000_0000_0000_0000_0000_0000_0000_0000_0000_0000_0000_0000_0000_0000_0000_0000_0000_0000_0000int) by (nonlinear_arith)
        requires b == b0 + b1 * 0x100_0000_0000_0000int + b2 * 0x1_0000_0000_0000_0000_0000_0000_0000int
            + b3 * 0x100_0000_0000_0000_0000_0000_0000_0000_0000_0000_0000int
            + b4 * 0x1_0000_0000_0000_0000_0000_0000_0000_0000_0000_0000_0000_0000_0000_0000int
            + b5 * 0x100_0000_0000_0000_0000_0000_0000_0000_0000_0000_0000_0000_0000_0000_0000_0000_0000_0000int
            + b6 * 0x1_0000_0000_0000_0000_0000_0000_0000_0000_0000_0000_0000_0000_0000_0000_0000_0000_0000_0000_0000_0000_0000int
            + b7 * 0x100_0000_0000_0000_0000_0000_0000_0000_0000_0000_0000_0000_0000_0000_0000_0000_0000_0000_0000_0000_0000_0000_0000_0000_0000int, m10 == a1 * b0, m11 == a1 * b1, m12 == a1 * b2, m13 == a1 * b3, m14 == a1 * b4, m15 == a1 * b5, m16 == a1 * b6, m17 == a1 * b7;
    assert((a2 * 0x1_0000_0000_0000_0000_0000_0000_0000int) * b == m20 * 0x1_0000_0000_0000_0000_0000_0000_0000int
        + m21 * 0x100_0000_0000_0000_0000_0000_0000_0000_0000_0000_0000int
        + m22 * 0x1_0000_0000_0000_0000_0000_0000_0000_0000_0000_0000_0000_0000_0000_0000int
        + m23 * 0x100_0000_0000_0000_0000_0000_0000_0000_0000_0000_0000_0000_0000_0000_0000_0000_0000_0000int
        + m24 * 0x1_0000_0000_0000_0000_0000_0000_0000_0000_0000_0000_0000_0000_0000_0000_0000_0000_0000_0000_0000_0000_0000int
        + m25 * 0x100_0000_0000_0000_0000_0000_0000_0000_0000_0000_0000_0000_0000_0000_0000_0000_0000_0000_0000_0000_0000_0000_0000_0000_0000int
        + m26 * 0x1_0000_0000_0000_0000_0000_0000_0000_0000_0000_0000_0000_0000_0000_0000_0000_0000_0000_0000_0000_0000_0000_0000_0000_0000_0000_0000_0000_0000int
        + m27 * 0x100_0000_0000_0000_0000_0000_0000_0000_0000_0000_0000_0000_0000_0000_0000_0000_0000_0000_0000_0000_0000_0000_0000_0000_0000_0000_0000_0000_0000_0000_0000_0000int) by (nonlinear_arith)
        requires b == b0 + b1 * 0x100_0000_0000_0000int + b2 * 0x1_0000_0000_0000_0000_0000_0000_0000int
            + b3 * 0x100_0000_0000_0000_0000_0000_0000_0000_0000_0000_0000int
            + b4 * 0x1_0000_0000_0000_0000_0000_0000_0000_0000_0000_0000_0000_0000_0000_0000int
            + b5 * 0x100_0000_0000_0000_0000_0000_0000_0000_0000_0000_0000_0000_0000_0000_0000_0000_0000_0000int
            + b6 * 0x1_0000_0000_0000_0000_0000_0000_0000_0000_0000_0000_0000_0000_0000_0000_0000_0000_0000_0000_0000_0000_0000int
            + b7 * 0x100_0000_0000_0000_0000_0000_0000_0000_0000_0000_0000_0000_0000_0000_0000_0000_0000_0000_0000_0000_0000_0000_0000_0000_0000int, m20 == a2 * b0, m21 == a2 * b1, m22 == a2 * b2, m23 == a2 * b3, m24 == a2 * b4, m25 == a2 * b5, m26 == a2 * b6, m27 == a2 * b7;
    assert((a3 * 0x100_0000_0000_0000_0000_0000_0000_0000_0000_0000_0000int) * b == m30 * 0x100_0000_0000_0000_0000_0000_0000_0000_0000_0000_0000int
        + m31 * 0x1_0000_0000_0000_0000_0000_0000_0000_0000_0000_0000_0000_0000_0000_0000int
        + m32 * 0x100_0000_0000_0000_0000_0000_0000_0000_0000_0000_0000_0000_0000_0000_0000_0000_0000_0000int
        + m33 * 0x1_0000_0000_0000_0000_0000_0000_0000_0000_0000_0000_0000_0000_0000_0000_0000_0000_0000_0000_0000_0000_0000int
        + m34 * 0x100_0000_0000_0000_0000_0000_0000_0000_0000_0000_0000_0000_0000_0000_0000_0000_0000_0000_0000_0000_0000_0000_0000_0000_0000int
        + m35 * 0x1_0000_0000_0000_0000_0000_0000_0000_0000_0000_0000_0000_0000_0000_0000_0000_0000_0000_0000_0000_0000_0000_0000_0000_0000_0000_0000_0000_0000int
        + m36 * 0x100_0000_0000_0000_0000_0000_0000_0000_0000_0000_0000_0000_0000_0000_0000_0000_0000_0000_0000_0000_0000_0000_0000_0000_0000_0000_0000_0000_0000_0000_0000_0000int
        + m37 * 0x1_0000_0000_0000_0000_0000_0000_0000_0000_0000_0000_0000_0000_0000_0000_0000_0000_0000_0000_0000_0000_0000_0000_0000_0000_0000_0000_0000_0000_0000_0000_0000_0000_0000_0000_0000int) by (nonlinear_arith)
        requires b == b0 + b1 * 0x100_0000_0000_0000int + b2 * 0x1_0000_0000_0000_0000_0000_0000_0000int
            + b3 * 0x100_0000_0000_0000_0000_0000_0000_0000_0000_0000_0000int
            + b4 * 0x1_0000_0000_0000_0000_0000_0000_0000_0000_0000_0000_0000_0000_0000_0000int
            + b5 * 0x100_0000_0000_0000_0000_0000_0000_0000_0000_0000_0000_0000_0000_0000_0000_0000_0000_0000int
            + b6 * 0x1_0000_0000_0000_0000_0000_0000_0000_0000_0000_0000_0000_0000_0000_0000_0000_0000_0000_0000_0000_0000_0000int
            + b7 * 0x100_0000_0000_0000_0000_0000_0000_0000_0000_0000_0000_0000_0000_0000_0000_0000_0000_0000_0000_0000_0000_0000_0000_0000_0000int, m30 == a3 * b0, m31 == a3 * b1, m32 == a3 * b2, m33 == a3 * b3, m34 == a3 * b4, m35 == a3 * b5, m36 == a3 * b6, m37 == a3 * b7;
    assert((a4 * 0x1_0000_0000_0000_0000_0000_0000_0000_0000_0000_0000_0000_0000_0000_0000int) * b == m40 * 0x1_0000_0000_0000_0000_0000_0000_0000_0000_0000_0000_0000_0000_0000_0000int
        + m41 * 0x100_0000_0000_0000_0000_0000_0000_0000_0000_0000_0000_0000_0000_0000_0000_0000_0000_0000int
        + m42 * 0x1_0000_0000_0000_0000_0000_0000_0000_0000_0000_0000_0000_0000_0000_0000_0000_0000_0000_0000_0000_0000_0000int
        + m43 * 0x100_0000_0000_0000_0000_0000_0000_0000_0000_0000_0000_0000_0000_0000_0000_0000_0000_0000_0000_0000_0000_0000_0000_0000_0000int
        + m44 * 0x1_0000_0000_0000_0000_0000_0000_0000_0000_0000_0000_0000_0000_0000_0000_0000_0000_0000_0000_0000_0000_0000_0000_0000_0000_0000_0000_0000_0000int
        + m45 * 0x100_0000_0000_0000_0000_0000_0000_0000_0000_0000_0000_0000_0000_0000_0000_0000_0000_0000_0000_0000_0000_0000_0000_0000_0000_0000_0000_0000_0000_0000_0000_0000int
        + m46 * 0x1_0000_0000_0000_0000_0000_0000_0000_0000_0000_0000_0000_0000_0000_0000_0000_0000_0000_0000_0000_0000_0000_0000_0000_0000_0000_0000_0000_0000_0000_0000_0000_0000_0000_0000_0000int
        + m47 * 0x100_0000_0000_0000_0000_0000_0000_0000_0000_0000_0000_0000_0000_0000_0000_0000_0000_0000_0000_0000_0000_0000_0000_0000_0000_0000_0000_0000_0000_0000_0000_0000_0000_0000_0000_0000_0000_0000_0000int) by (nonlinear_arith)
        requires b == b0 + b1 * 0x100_0000_0000_0000int + b2 * 0x1_0000_0000_0000_0000_0000_0000_0000int
            + b3 * 0x100_0000_0000_0000_0000_0000_0000_0000_0000_0000_0000int
            + b4 * 0x1_0000_0000_0000_0000_0000_0000_0000_0000_0000_0000_0000_0000_0000_0000int
            + b5 * 0x100_0000_0000_0000_0000_0000_0000_0000_0000_0000_0000_0000_0000_0000_0000_0000_0000_0000int
            + b6 * 0x1_0000_0000_0000_0000_0000_0000_0000_0000_0000_0000_0000_0000_0000_0000_0000_0000_0000_0000_0000_0000_0000int
            + b7 * 0x100_0000_0000_0000_0000_0000_0000_0000_0000_0000_0000_0000_0000_0000_0000_0000_0000_0000_0000_0000_0000_0000_0000_0000_0000int, m40 == a4 * b0, m41 == a4 * b1, m42 == a4 * b2, m43 == a4 * b3, m44 == a4 * b4, m45 == a4 * b5, m46 == a4 * b6, m47 == a4 * b7;
    assert((a5 * 0x100_0000_0000_0000_0000_0000_0000_0000_0000_0000_0000_0000_0000_0000_0000_0000_0000_0000int) * b == m50 * 0x100_0000_0000_0000_0000_0000_0000_0000_0000_0000_0000_0000_0000_0000_0000_0000_0000_0000int
        + m51 * 0x1_0000_0000_0000_0000_0000_0000_0000_0000_0000_0000_0000_0000_0000_0000_0000_0000_0000_0000_0000_0000_0000int
        + m52 * 0x100_0000_0000_0000_0000_0000_0000_0000_0000_0000_0000_0000_0000_0000_0000_0000_0000_0000_0000_0000_0000_0000_0000_0000_0000int
        + m53 * 0x1_0000_0000_0000_0000_0000_0000_0000_0000_0000_0000_0000_0000_0000_0000_0000_0000_0000_0000_0000_0000_0000_0000_0000_0000_0000_0000_0000_0000int
        + m54 * 0x100_0000_0000_0000_0000_0000_0000_0000_0000_0000_0000_0000_0000_0000_0000_0000_0000_0000_0000_0000_0000_0000_0000_0000_0000_0000_0000_0000_0000_0000_0000_0000int
        + m55 * 0x1_0000_0000_0000_0000_0000_0000_0000_0000_0000_0000_0000_0000_0000_0000_0000_0000_0000_0000_0000_0000_0000_0000_0000_0000_0000_0000_0000_0000_0000_0000_0000_0000_0000_0000_0000int
        + m56 * 0x100_0000_0000_0000_0000_0000_0000_0000_0000_0000_0000_0000_0000_0000_0000_0000_0000_0000_0000_0000_0000_0000_0000_0000_0000_0000_0000_0000_0000_0000_0000_0000_0000_0000_0000_0000_0000_0000_0000int
        + m57 * 0x1_0000_0000_0000_0000_0000_0000_0000_0000_0000_0000_0000_0000_0000_0000_0000_0000_0000_0000_0000_0000_0000_0000_0000_0000_0000_0000_0000_0000_0000_0000_0000_0000_0000_0000_0000_0000_0000_0000_0000_0000_0000_0000int) by (nonlinear_arith)
        requires b == b0 + b1 * 0x100_0000_0000_0000int + b2 * 0x1_0000_0000_0000_0000_0000_0000_0000int
            + b3 * 0x100_0000_0000_0000_0000_0000_0000_0000_0000_0000_0000int
            + b4 * 0x1_0000_0000_0000_0000_0000_0000_0000_0000_0000_0000_0000_0000_0000_0000int
            + b5 * 0x100_0000_0000_0000_0000_0000_0000_0000_0000_0000_0000_0000_0000_0000_0000_0000_0000_0000int
            + b6 * 0x1_0000_0000_0000_0000_0000_0000_0000_0000_0000_0000_0000_0000_0000_0000_0000_0000_0000_0000_0000_0000_0000int
            + b7 * 0x100_0000_0000_0000_0000_0000_0000_0000_0000_0000_0000_0000_0000_0000_0000_0000_0000_0000_0000_0000_0000_0000_0000_0000_0000int, m50 == a5 * b0, m51 == a5 * b1, m52 == a5 * b2, m53 == a5 * b3, m54 == a5 * b4, m55 == a5 * b5, m56 == a5 * b6, m57 == a5 * b7;
    assert((a6 * 0x1_0000_0000_0000_0000_0000_0000_0000_0000_0000_0000_0000_0000_0000_0000_0000_0000_0000_0000_0000_0000_0000int) * b == m60 * 0x1_0000_0000_0000_0000_0000_0000_0000_0000_0000_0000_0000_0000_0000_0000_0000_0000_0000_0000_0000_0000_0000int
        + m61 * 0x100_0000_0000_0000_0000_0000_0000_0000_0000_0000_0000_0000_0000_0000_0000_0000_0000_0000_0000_0000_0000_0000_0000_0000_0000int
        + m62 * 0x1_0000_0000_0000_0000_0000_0000_0000_0000_0000_0000_0000_0000_0000_0000_0000_0000_0000_0000_0000_0000_0000_0000_0000_0000_0000_0000_0000_0000int
        + m63 * 0x100_0000_0000_0000_0000_0000_0000_0000_0000_0000_0000_0000_0000_0000_0000_0000_0000_0000_0000_0000_0000_0000_0000_0000_0000_0000_0000_0000_0000_0000_0000_0000int
        + m64 * 0x1_0000_0000_0000_0000_0000_0000_0000_0000_0000_0000_0000_0000_0000_0000_0000_0000_0000_0000_0000_0000_0000_0000_0000_0000_0000_0000_0000_0000_0000_0000_0000_0000_0000_0000_0000int
        + m65 * 0x100_0000_0000_0000_0000_0000_0000_0000_0000_0000_0000_0000_0000_0000_0000_0000_0000_0000_0000_0000_0000_0000_0000_0000_0000_0000_0000_0000_0000_0000_0000_0000_0000_0000_0000_0000_0000_0000_0000int
        + m66 * 0x1_0000_0000_0000_0000_0000_0000_0000_0000_0000_0000_0000_0000_0000_0000_0000_0000_0000_0000_0000_0000_0000_0000_0000_0000_0000_0000_0000_0000_0000_0000_0000_0000_0000_0000_0000_0000_0000_0000_0000_0000_0000_0000int
        + m67 * 0x100_0000_0000_0000_0000_0000_0000_0000_0000_0000_0000_0000_0000_0000_0000_0000_0000_0000_0000_0000_0000_0000_0000_0000_0000_0000_0000_0000_0000_0000_0000_0000_0000_0000_0000_0000_0000_0000_0000_0000_0000_0000_0000_0000_0000_0000int) by (nonlinear_arith)
        requires b == b0 + b1 * 0x100_0000_0000_0000int + b2 * 0x1_0000_0000_0000_0000_0000_0000_0000int
            + b3 * 0x100_0000_0000_0000_0000_0000_0000_0000_0000_0000_0000int
            + b4 * 0x1_0000_0000_0000_0000_0000_0000_0000_0000_0000_0000_0000_0000_0000_0000int
            + b5 * 0x100_0000_0000_0000_0000_0000_0000_0000_0000_0000_0000_0000_0000_0000_0000_0000_0000_0000int
            + b6 * 0x1_0000_0000_0000_0000_0000_0000_0000_0000_0000_0000_0000_0000_0000_0000_0000_0000_0000_0000_0000_0000_0000int
            + b7 * 0x100_0000_0000_0000_0000_0000_0000_0000_0000_0000_0000_0000_0000_0000_0000_0000_0000_0000_0000_0000_0000_0000_0000_0000_0000int, m60 == a6 * b0, m61 == a6 * b1, m62 == a6 * b2, m63 == a6 * b3, m64 == a6 * b4, m65 == a6 * b5, m66 == a6 * b6, m67 == a6 * b7;
    assert((a7 * 0x100_0000_0000_0000_0000_0000_0000_0000_0000_0000_0000_0000_0000_0000_0000_0000_0000_0000_0000_0000_0000_0000_0000_0000_0000int) * b == m70 * 0x100_0000_0000_0000_0000_0000_0000_0000_0000_0000_0000_0000_0000_0000_0000_0000_0000_0000_0000_0000_0000_0000_0000_0000_0000int
        + m71 * 0x1_0000_0000_0000_0000_0000_0000_0000_0000_0000_0000_0000_0000_0000_0000_0000_0000_0000_0000_0000_0000_0000_0000_0000_0000_0000_0000_0000_0000int
        + m72 * 0x100_0000_0000_0000_0000_0000_0000_0000_0000_0000_0000_0000_0000_0000_0000_0000_0000_0000_0000_0000_0000_0000_0000_0000_0000_0000_0000_0000_0000_0000_0000_0000int
        + m73 * 0x1_0000_0000_0000_0000_0000_0000_0000_0000_0000_0000_0000_0000_0000_0000_0000_0000_0000_0000_0000_0000_0000_0000_0000_0000_0000_0000_0000_0000_0000_0000_0000_0000_0000_0000_0000int
        + m74 * 0x100_0000_0000_0000_0000_0000_0000_0000_0000_0000_0000_0000_0000_0000_0000_0000_0000_0000_0000_0000_0000_0000_0000_0000_0000_0000_0000_0000_0000_0000_0000_0000_0000_0000_0000_0000_0000_0000_0000int
        + m75 * 0x1_0000_0000_0000_0000_0000_0000_0000_0000_0000_0000_0000_0000_0000_0000_0000_0000_0000_0000_0000_0000_0000_0000_0000_0000_0000_0000_0000_0000_0000_0000_0000_0000_0000_0000_0000_0000_0000_0000_0000_0000_0000_0000int
        + m76 * 0x100_0000_0000_0000_0000_0000_0000_0000_0000_0000_0000_0000_0000_0000_0000_0000_0000_0000_0000_0000_0000_0000_0000_0000_0000_0000_0000_0000_0000_0000_0000_0000_0000_0000_0000_0000_0000_0000_0000_0000_0000_0000_0000_0000_0000_0000int
        + m77 * 0x1_0000_0000_0000_0000_0000_0000_0000_0000_0000_0000_0000_0000_0000_0000_0000_0000_0000_0000_0000_0000_0000_0000_0000_0000_0000_0000_0000_0000_0000_0000_0000_0000_0000_0000_0000_0000_0000_0000_0000_0000_0000_0000_0000_0000_0000_0000_0000_0000_0000int) by (nonlinear_arith)
        requires b == b0 + b1 * 0x100_0000_0000_0000int + b2 * 0x1_0000_0000_0000_0000_0000_0000_0000int
            + b3 * 0x100_0000_0000_0000_0000_0000_0000_0000_0000_0000_0000int
            + b4 * 0x1_0000_0000_0000_0000_0000_0000_0000_0000_0000_0000_0000_0000_0000_0000int
            + b5 * 0x100_0000_0000_0000_0000_0000_0000_0000_0000_0000_0000_0000_0000_0000_0000_0000_0000_0000int
            + b6 * 0x1_0000_0000_0000_0000_0000_0000_0000_0000_0000_0000_0000_0000_0000_0000_0000_0000_0000_0000_0000_0000_0000int
            + b7 * 0x100_0000_0000_0000_0000_0000_0000_0000_0000_0000_0000_0000_0000_0000_0000_0000_0000_0000_0000_0000_0000_0000_0000_0000_0000int, m70 == a7 * b0, m71 == a7 * b1, m72 == a7 * b2, m73 == a7 * b3, m74 == a7 * b4, m75 == a7 * b5, m76 == a7 * b6, m77 == a7 * b7;
    assert(a * b == m00 + m01 * 0x100_0000_0000_0000int + m02 * 0x1_0000_0000_0000_0000_0000_0000_0000int
        + m03 * 0x100_0000_0000_0000_0000_0000_0000_0000_0000_0000_0000int
        + m04 * 0x1_0000_0000_0000_0000_0000_0000_0000_0000_0000_0000_0000_0000_0000_0000int
        + m05 * 0x100_0000_0000_0000_0000_0000_0000_0000_0000_0000_0000_0000_0000_0000_0000_0000_0000_0000int
        + m06 * 0x1_0000_0000_0000_0000_0000_0000_0000_0000_0000_0000_0000_0000_0000_0000_0000_0000_0000_0000_0000_0000_0000int
        + m07 * 0x100_0000_0000_0000_0000_0000_0000_0000_0000_0000_0000_0000_0000_0000_0000_0000_0000_0000_0000_0000_0000_0000_0000_0000_0000int
        + m10 * 0x100_0000_0000_0000int + m11 * 0x1_0000_0000_0000_0000_0000_0000_0000int
        + m12 * 0x100_0000_0000_0000_0000_0000_0000_0000_0000_0000_0000int
        + m13 * 0x1_0000_0000_0000_0000_0000_0000_0000_0000_0000_0000_0000_0000_0000_0000int
        + m14 * 0x100_0000_0000_0000_0000_0000_0000_0000_0000_0000_0000_0000_0000_0000_0000_0000_0000_0000int
        + m15 * 0x1_0000_0000_0000_0000_0000_0000_0000_0000_0000_0000_0000_0000_0000_0000_0000_0000_0000_0000_0000_0000_0000int
        + m16 * 0x100_0000_0000_0000_0000_0000_0000_0000_0000_0000_0000_0000_0000_0000_0000_0000_0000_0000_0000_0000_0000_0000_0000_0000_0000int
        + m17 * 0x1_0000_0000_0000_0000_0000_0000_0000_0000_0000_0000_0000_0000_0000_0000_0000_0000_0000_0000_0000_0000_0000_0000_0000_0000_0000_0000_0000_0000int
        + m20 * 0x1_0000_0000_0000_0000_0000_0000_0000int
        + m21 * 0x100_0000_0000_0000_0000_0000_0000_0000_0000_0000_0000int
        + m22 * 0x1_0000_0000_0000_0000_0000_0000_0000_0000_0000_0000_0000_0000_0000_0000int
        + m23 * 0x100_0000_0000_0000_0000_0000_0000_0000_0000_0000_0000_0000_0000_0000_0000_0000_0000_0000int
        + m24 * 0x1_0000_0000_0000_0000_0000_0000_0000_0000_0000_0000_0000_0000_0000_0000_0000_0000_0000_0000_0000_0000_0000int
        + m25 * 0x100_0000_0000_0000_0000_0000_0000_0000_0000_0000_0000_0000_0000_0000_0000_0000_0000_0000_0000_0000_0000_0000_0000_0000_0000int
        + m26 * 0x1_0000_0000_0000_0000_0000_0000_0000_0000_0000_0000_0000_0000_0000_0000_0000_0000_0000_0000_0000_0000_0000_0000_0000_0000_0000_0000_0000_0000int
        + m27 * 0x100_0000_0000_0000_0000_0000_0000_0000_0000_0000_0000_0000_0000_0000_0000_0000_0000_0000_0000_0000_0000_0000_0000_0000_0000_0000_0000_0000_0000_0000_0000_0000int
        + m30 * 0x100_0000_0000_0000_0000_0000_0000_0000_0000_0000_0000int
        + m31 * 0x1_0000_0000_0000_0000_0000_0000_0000_0000_0000_0000_0000_0000_0000_0000int
        + m32 * 0x100_0000_0000_0000_0000_0000_0000_0000_0000_0000_0000_0000_0000_0000_0000_0000_0000_0000int
        + m33 * 0x1_0000_0000_0000_0000_0000_0000_0000_0000_0000_0000_0000_0000_0000_0000_0000_0000_0000_0000_0000_0000_0000int
        + m34 * 0x100_0000_0000_0000_0000_0000_0000_0000_0000_0000_0000_0000_0000_0000_0000_0000_0000_0000_0000_0000_0000_0000_0000_0000_0000int
        + m35 * 0x1_0000_0000_0000_0000_0000_0000_0000_0000_0000_0000_0000_0000_0000_0000_0000_0000_0000_0000_0000_0000_0000_0000_0000_0000_0000_0000_0000_0000int
        + m36 * 0x100_0000_0000_0000_0000_0000_0000_0000_0000_0000_0000_0000_0000_0000_0000_0000_0000_0000_0000_0000_0000_0000_0000_0000_0000_0000_0000_0000_0000_0000_0000_0000int
        + m37 * 0x1_0000_0000_0000_0000_0000_0000_0000_0000_0000_0000_0000_0000_0000_0000_0000_0000_0000_0000_0000_0000_0000_0000_0000_0000_0000_0000_0000_0000_0000_0000_0000_0000_0000_0000_0000int
        + m40 * 0x1_0000_0000_0000_0000_0000_0000_0000_0000_0000_0000_0000_0000_0000_0000int
        + m41 * 0x100_0000_0000_0000_0000_0000_0000_0000_0000_0000_0000_0000_0000_0000_0000_0000_0000_0000int
        + m42 * 0x1_0000_0000_0000_0000_0000_0000_0000_0000_0000_0000_0000_0000_0000_0000_0000_0000_0000_0000_0000_0000_0000int
        + m43 * 0x100_0000_0000_0000_0000_0000_0000_0000_0000_0000_0000_0000_0000_0000_0000_0000_0000_0000_0000_0000_0000_0000_0000_0000_0000int
        + m44 * 0x1_0000_0000_0000_0000_0000_0000_0000_0000_0000_0000_0000_0000_0000_0000_0000_0000_0000_0000_0000_0000_0000_0000_0000_0000_0000_0000_0000_0000int
        + m45 * 0x100_0000_0000_0000_0000_0000_0000_0000_0000_0000_0000_0000_0000_0000_0000_0000_0000_0000_0000_0000_0000_0000_0000_0000_0000_0000_0000_0000_0000_0000_0000_0000int
        + m46 * 0x1_0000_0000_0000_0000_0000_0000_0000_0000_0000_0000_0000_0000_0000_0000_0000_0000_0000_0000_0000_0000_0000_0000_0000_0000_0000_0000_0000_0000_0000_0000_0000_0000_0000_0000_0000int
        + m47 * 0x100_0000_0000_0000_0000_0000_0000_0000_0000_0000_0000_0000_0000_0000_0000_0000_0000_0000_0000_0000_0000_0000_0000_0000_0000_0000_0000_0000_0000_0000_0000_0000_0000_0000_0000_0000_0000_0000_0000int
        + m50 * 0x100_0000_0000_0000_0000_0000_0000_0000_0000_0000_0000_0000_0000_0000_0000_0000_0000_0000int
        + m51 * 0x1_0000_0000_0000_0000_0000_0000_0000_0000_0000_0000_0000_0000_0000_0000_0000_0000_0000_0000_0000_0000_0000int
        + m52 * 0x100_0000_0000_0000_0000_0000_0000_0000_0000_0000_0000_0000_0000_0000_0000_0000_0000_0000_0000_0000_0000_0000_0000_0000_0000int
        + m53 * 0x1_0000_0000_0000_0000_0000_0000_0000_0000_0000_0000_0000_0000_0000_0000_0000_0000_0000_0000_0000_0000_0000_0000_0000_0000_0000_0000_0000_0000int
        + m54 * 0x100_0000_0000_0000_0000_0000_0000_0000_0000_0000_0000_0000_0000_0000_0000_0000_0000_0000_0000_0000_0000_0000_0000_0000_0000_0000_0000_0000_0000_0000_0000_0000int
        + m55 * 0x1_0000_0000_0000_0000_0000_0000_0000_0000_0000_0000_0000_0000_0000_0000_0000_0000_0000_0000_0000_0000_0000_0000_0000_0000_0000_0000_0000_0000_0000_0000_0000_0000_0000_0000_0000int
        + m56 * 0x100_0000_0000_0000_0000_0000_0000_0000_0000_0000_0000_0000_0000_0000_0000_0000_0000_0000_0000_0000_0000_0000_0000_0000_0000_0000_0000_0000_0000_0000_0000_0000_0000_0000_0000_0000_0000_0000_0000int
        + m57 * 0x1_0000_0000_0000_0000_0000_0000_0000_0000_0000_0000_0000_0000_0000_0000_0000_0000_0000_0000_0000_0000_0000_0000_0000_0000_0000_0000_0000_0000_0000_0000_0000_0000_0000_0000_0000_0000_0000_0000_0000_0000_0000_0000int
        + m60 * 0x1_0000_0000_0000_0000_0000_0000_0000_0000_0000_0000_0000_0000_0000_0000_0000_0000_0000_0000_0000_0000_0000int
        + m61 * 0x100_0000_0000_0000_0000_0000_0000_0000_0000_0000_0000_0000_0000_0000_0000_0000_0000_0000_0000_0000_0000_0000_0000_0000_0000int
        + m62 * 0x1_0000_0000_0000_0000_0000_0000_0000_0000_0000_0000_0000_0000_0000_0000_0000_0000_0000_0000_0000_0000_0000_0000_0000_0000_0000_0000_0000_0000int
        + m63 * 0x100_0000_0000_0000_0000_0000_0000_0000_0000_0000_0000_0000_0000_0000_0000_0000_0000_0000_0000_0000_0000_0000_0000_0000_0000_0000_0000_0000_0000_0000_0000_0000int
        + m64 * 0x1_0000_0000_0000_0000_0000_0000_0000_0000_0000_0000_0000_0000_0000_0000_0000_0000_0000_0000_0000_0000_0000_0000_0000_0000_0000_0000_0000_0000_0000_0000_0000_0000_0000_0000_0000int
        + m65 * 0x100_0000_0000_0000_0000_0000_0000_0000_0000_0000_0000_0000_0000_0000_0000_0000_0000_0000_0000_0000_0000_0000_0000_0000_0000_0000_0000_0000_0000_0000_0000_0000_0000_0000_0000_0000_0000_0000_0000int
        + m66 * 0x1_0000_0000_0000_0000_0000_0000_0000_0000_0000_0000_0000_0000_0000_0000_0000_0000_0000_0000_0000_0000_0000_0000_0000_0000_0000_0000_0000_0000_0000_0000_0000_0000_0000_0000_0000_0000_0000_0000_0000_0000_0000_0000int
        + m67 * 0x100_0000_0000_0000_0000_0000_0000_0000_0000_0000_0000_0000_0000_0000_0000_0000_0000_0000_0000_0000_0000_0000_0000_0000_0000_0000_0000_0000_0000_0000_0000_0000_0000_0000_0000_0000_0000_0000_0000_0000_0000_0000_0000_0000_0000_0000int
        + m70 * 0x100_0000_0000_0000_0000_0000_0000_0000_0000_0000_0000_0000_0000_0000_0000_0000_0000_0000_0000_0000_0000_0000_0000_0000_0000int
        + m71 * 0x1_0000_0000_0000_0000_0000_0000_0000_0000_0000_0000_0000_0000_0000_0000_0000_0000_0000_0000_0000_0000_0000_0000_0000_0000_0000_0000_0000_0000int
        + m72 * 0x100_0000_0000_0000_0000_0000_0000_0000_0000_0000_0000_0000_0000_0000_0000_0000_0000_0000_0000_0000_0000_0000_0000_0000_0000_0000_0000_0000_0000_0000_0000_0000int
        + m73 * 0x1_0000_0000_0000_0000_0000_0000_0000_0000_0000_0000_0000_0000_0000_0000_0000_0000_0000_0000_0000_0000_0000_0000_0000_0000_0000_0000_0000_0000_0000_0000_0000_0000_0000_0000_0000int
        + m74 * 0x100_0000_0000_0000_0000_0000_0000_0000_0000_0000_0000_0000_0000_0000_0000_0000_0000_0000_0000_0000_0000_0000_0000_0000_0000_0000_0000_0000_0000_0000_0000_0000_0000_0000_0000_0000_0000_0000_0000int
        + m75 * 0x1_0000_0000_0000_0000_0000_0000_0000_0000_0000_0000_0000_0000_0000_0000_0000_0000_0000_0000_0000_0000_0000_0000_0000_0000_0000_0000_0000_0000_0000_0000_0000_0000_0000_0000_0000_0000_0000_0000_0000_0000_0000_0000int
        + m76 * 0x100_0000_0000_0000_0000_0000_0000_0000_0000_0000_0000_0000_0000_0000_0000_0000_0000_0000_0000_0000_0000_0000_0000_0000_0000_0000_0000_0000_0000_0000_0000_0000_0000_0000_0000_0000_0000_0000_0000_0000_0000_0000_0000_0000_0000_0000int
        + m77 * 0x1_0000_0000_0000_0000_0000_0000_0000_0000_0000_0000_0000_0000_0000_0000_0000_0000_0000_0000_0000_0000_0000_0000_0000_0000_0000_0000_0000_0000_0000_0000_0000_0000_0000_0000_0000_0000_0000_0000_0000_0000_0000_0000_0000_0000_0000_0000_0000_0000_0000int);
}

/// The folded schoolbook coefficients of two limb arrays stand for their product modulo `p`.
#[verifier::rlimit(30)]
proof fn lemma_multiply_value(a: [u64; 8], b: [u64; 8], coefficients: [u128; 8])
    requires
        coefficients[0] == (a[0] * b[0]) + (a[1] * b[7]) + (a[2] * b[6]) + (a[3] * b[5]) + (a[4] * b[4])
            + (a[5] * b[3]) + (a[6] * b[2]) + (a[7] * b[1]) + (a[5] * b[7]) + (a[6] * b[6]) + (a[7] * b[5]),
        coefficients[1] == (a[0] * b[1]) + (a[1] * b[0]) + (a[2] * b[7]) + (a[3] * b[6]) + (a[4] * b[5])
            + (a[5] * b[4]) + (a[6] * b[3]) + (a[7] * b[2]) + (a[6] * b[7]) + (a[7] * b[6]),
        coefficients[2] == (a[0] * b[2]) + (a[1] * b[1]) + (a[2] * b[0]) + (a[3] * b[7]) + (a[4] * b[6])
            + (a[5] * b[5]) + (a[6] * b[4]) + (a[7] * b[3]) + (a[7] * b[7]),
        coefficients[3] == (a[0] * b[3]) + (a[1] * b[2]) + (a[2] * b[1]) + (a[3] * b[0]) + (a[4] * b[7])
            + (a[5] * b[6]) + (a[6] * b[5]) + (a[7] * b[4]),
        coefficients[4] == (a[0] * b[4]) + (a[1] * b[3]) + (a[2] * b[2]) + (a[3] * b[1]) + (a[4] * b[0])
            + (a[1] * b[7]) + (a[2] * b[6]) + (a[3] * b[5]) + (a[4] * b[4]) + (a[5] * b[3]) + (a[6] * b[2])
            + (a[7] * b[1]) + 2 * (a[5] * b[7]) + 2 * (a[6] * b[6]) + 2 * (a[7] * b[5]),
        coefficients[5] == (a[0] * b[5]) + (a[1] * b[4]) + (a[2] * b[3]) + (a[3] * b[2]) + (a[4] * b[1])
            + (a[5] * b[0]) + (a[2] * b[7]) + (a[3] * b[6]) + (a[4] * b[5]) + (a[5] * b[4]) + (a[6] * b[3])
            + (a[7] * b[2]) + 2 * (a[6] * b[7]) + 2 * (a[7] * b[6]),
        coefficients[6] == (a[0] * b[6]) + (a[1] * b[5]) + (a[2] * b[4]) + (a[3] * b[3]) + (a[4] * b[2])
            + (a[5] * b[1]) + (a[6] * b[0]) + (a[3] * b[7]) + (a[4] * b[6]) + (a[5] * b[5]) + (a[6] * b[4])
            + (a[7] * b[3]) + 2 * (a[7] * b[7]),
        coefficients[7] == (a[0] * b[7]) + (a[1] * b[6]) + (a[2] * b[5]) + (a[3] * b[4]) + (a[4] * b[3])
            + (a[5] * b[2]) + (a[6] * b[1]) + (a[7] * b[0]) + (a[4] * b[7]) + (a[5] * b[6]) + (a[6] * b[5])
            + (a[7] * b[4]),
    ensures
        wide_value(coefficients) % p448() == (limbs_value(a) * limbs_value(b)) % p448(),
{
    let p = p448();
    let (a0, a1, a2, a3, a4, a5, a6, a7) = (a[0] as int, a[1] as int, a[2] as int, a[3] as int, a[4] as int,
        a[5] as int, a[6] as int, a[7] as int);
    let (b0, b1, b2, b3, b4, b5, b6, b7) = (b[0] as int, b[1] as int, b[2] as int, b[3] as int, b[4] as int,
        b[5] as int, b[6] as int, b[7] as int);
    lemma_product_fold(a0, a1, a2, a3, a4, a5, a6, a7, b0, b1, b2, b3, b4, b5, b6, b7);
    let q = ((a1 * b7) + (a2 * b6) + (a3 * b5) + (a4 * b4) + (a5 * b3) + (a6 * b2) + (a7 * b1))
        + ((a2 * b7) + (a3 * b6) + (a4 * b5) + (a5 * b4) + (a6 * b3) + (a7 * b2)) * 0x100_0000_0000_0000int
        + ((a3 * b7) + (a4 * b6) + (a5 * b5) + (a6 * b4) + (a7 * b3)) * 0x1_0000_0000_0000_0000_0000_0000_0000int
        + ((a4 * b7) + (a5 * b6) + (a6 * b5) + (a7 * b4)) * 0x100_0000_0000_0000_0000_0000_0000_0000_0000_0000_0000int
        + ((a5 * b7) + (a6 * b6)
            + (a7 * b5)) * 0x1_0000_0000_0000_0000_0000_0000_0000_0000_0000_0000_0000_0000_0000_0000int
        + ((a5 * b7) + (a6 * b6) + (a7 * b5))
        + ((a6 * b7)
            + (a7 * b6)) * 0x100_0000_0000_0000_0000_0000_0000_0000_0000_0000_0000_0000_0000_0000_0000_0000_0000_0000int
        + ((a6 * b7) + (a7 * b6)) * 0x100_0000_0000_0000int
        + ((a7 * b7)) * 0x1_0000_0000_0000_0000_0000_0000_0000_0000_0000_0000_0000_0000_0000_0000_0000_0000_0000_0000_0000_0000_0000int
        + ((a7 * b7)) * 0x1_0000_0000_0000_0000_0000_0000_0000int;
    assert(limbs_value(a) * limbs_value(b) == wide_value(coefficients) + p * q);
    lemma_mod_multiples_vanish(q, wide_value(coefficients), p);
}

/// Selecting with an all-zero or all-one mask, and exchanging through a masked difference.
proof fn lemma_mask_select(mask: u64, x: u64, y: u64)
    by (bit_vector)
    requires
        mask == 0 || mask == 0xffff_ffff_ffff_ffffu64,
    ensures
        mask == 0 ==> (x & !mask) | (y & mask) == x,
        mask == 0xffff_ffff_ffff_ffffu64 ==> (x & !mask) | (y & mask) == y,
        mask == 0 ==> x ^ (mask & (x ^ y)) == x && y ^ (mask & (x ^ y)) == y,
        mask == 0xffff_ffff_ffff_ffffu64 ==> x ^ (mask & (x ^ y)) == y && y ^ (mask & (x ^ y)) == x,
{
}

/// Exchange two limbs when `mask` is all ones; keep them when it is zero.
fn swap_limbs(mask: u64, x: u64, y: u64) -> (pair: (u64, u64))
    requires
        mask == 0 || mask == 0xffff_ffff_ffff_ffffu64,
    ensures
        mask == 0 ==> pair == (x, y),
        mask != 0 ==> pair == (y, x),
{
    proof {
        lemma_mask_select(mask, x, y);
    }
    let selected_difference = mask & (x ^ y);
    (x ^ selected_difference, y ^ selected_difference)
}

/// Keep `kept` under an all-zero mask, take `taken` under an all-one mask.
fn select_limbs(mask: u64, kept: [u64; 8], taken: [u64; 8]) -> (selected: [u64; 8])
    requires
        mask == 0 || mask == 0xffff_ffff_ffff_ffffu64,
    ensures
        mask == 0 ==> selected == kept,
        mask != 0 ==> selected == taken,
{
    proof {
        lemma_mask_select(mask, kept[0], taken[0]);
        lemma_mask_select(mask, kept[1], taken[1]);
        lemma_mask_select(mask, kept[2], taken[2]);
        lemma_mask_select(mask, kept[3], taken[3]);
        lemma_mask_select(mask, kept[4], taken[4]);
        lemma_mask_select(mask, kept[5], taken[5]);
        lemma_mask_select(mask, kept[6], taken[6]);
        lemma_mask_select(mask, kept[7], taken[7]);
    }
    let selected = [
        (kept[0] & !mask) | (taken[0] & mask),
        (kept[1] & !mask) | (taken[1] & mask),
        (kept[2] & !mask) | (taken[2] & mask),
        (kept[3] & !mask) | (taken[3] & mask),
        (kept[4] & !mask) | (taken[4] & mask),
        (kept[5] & !mask) | (taken[5] & mask),
        (kept[6] & !mask) | (taken[6] & mask),
        (kept[7] & !mask) | (taken[7] & mask),
    ];
    assert(selected =~= (if mask == 0 { kept } else { taken }));
    selected
}

/// The value of seven bytes, written out.
proof fn lemma_le_seven(bytes: Seq<u8>)
    requires
        bytes.len() == 7,
    ensures
        le_spec(bytes) == bytes[0] + bytes[1] * 0x100 + bytes[2] * 0x1_0000 + bytes[3] * 0x100_0000
            + bytes[4] * 0x1_0000_0000 + bytes[5] * 0x100_0000_0000 + bytes[6] * 0x1_0000_0000_0000,
{
    reveal_with_fuel(le_spec, 8);
    assert(bytes.drop_first().drop_first().drop_first().drop_first().drop_first().drop_first().drop_first().len() == 0);
}

/// The little-endian value of `bytes[at .. at + 7]`.
fn load_limb(bytes: &[u8; 56], at: usize) -> (limb: u64)
    requires
        at + 7 <= 56,
    ensures
        limb == le_spec(bytes@.subrange(at as int, at + 7)),
        limb < 0x100_0000_0000_0000,
{
    proof {
        lemma_le_seven(bytes@.subrange(at as int, at + 7));
    }
    bytes[at] as u64 + bytes[at + 1] as u64 * 0x100 + bytes[at + 2] as u64 * 0x1_0000 + bytes[at
        + 3] as u64 * 0x100_0000
        + bytes[at + 4] as u64 * 0x1_0000_0000 + bytes[at + 5] as u64 * 0x100_0000_0000
        + bytes[at + 6] as u64 * 0x1_0000_0000_0000
}

/// The seven little-endian bytes of a limb below `2^56`.
fn limb_bytes(limb: u64) -> (bytes: [u8; 7])
    requires
        limb < 0x100_0000_0000_0000,
    ensures
        le_spec(bytes@) == limb,
{
    let mut remaining = limb;
    let b0 = (remaining % 256) as u8;
    remaining = remaining / 256;
    let b1 = (remaining % 256) as u8;
    remaining = remaining / 256;
    let b2 = (remaining % 256) as u8;
    remaining = remaining / 256;
    let b3 = (remaining % 256) as u8;
    remaining = remaining / 256;
    let b4 = (remaining % 256) as u8;
    remaining = remaining / 256;
    let b5 = (remaining % 256) as u8;
    remaining = remaining / 256;
    let b6 = remaining as u8;
    let bytes = [b0, b1, b2, b3, b4, b5, b6];
    proof {
        lemma_le_seven(bytes@);
    }
    bytes
}

/// The value of 56 bytes from their eight seven-byte limbs.
proof fn lemma_le_limbs(bytes: Seq<u8>)
    requires
        bytes.len() == 56,
    ensures
        le_spec(bytes) == coefficients_value(
            le_spec(bytes.subrange(0, 7)),
            le_spec(bytes.subrange(7, 14)),
            le_spec(bytes.subrange(14, 21)),
            le_spec(bytes.subrange(21, 28)),
            le_spec(bytes.subrange(28, 35)),
            le_spec(bytes.subrange(35, 42)),
            le_spec(bytes.subrange(42, 49)),
            le_spec(bytes.subrange(49, 56)),
        ),
{
    reveal_with_fuel(pow256_spec, 8);
    assert(pow256_spec(7) == 0x100_0000_0000_0000);
    let s0 = bytes.subrange(0, 7);
    let s1 = bytes.subrange(7, 14);
    let s2 = bytes.subrange(14, 21);
    let s3 = bytes.subrange(21, 28);
    let s4 = bytes.subrange(28, 35);
    let s5 = bytes.subrange(35, 42);
    let s6 = bytes.subrange(42, 49);
    let s7 = bytes.subrange(49, 56);
    let t7 = s7;
    let t6 = s6 + t7;
    let t5 = s5 + t6;
    let t4 = s4 + t5;
    let t3 = s3 + t4;
    let t2 = s2 + t3;
    let t1 = s1 + t2;
    let t0 = s0 + t1;
    assert(bytes =~= t0);
    lemma_le_concat(s6, t7);
    assert(le_spec(t6) == le_spec(s6) + 0x100_0000_0000_0000 * le_spec(t7));
    lemma_le_concat(s5, t6);
    assert(le_spec(t5) == le_spec(s5) + 0x100_0000_0000_0000 * le_spec(t6));
    lemma_le_concat(s4, t5);
    assert(le_spec(t4) == le_spec(s4) + 0x100_0000_0000_0000 * le_spec(t5));
    lemma_le_concat(s3, t4);
    assert(le_spec(t3) == le_spec(s3) + 0x100_0000_0000_0000 * le_spec(t4));
    lemma_le_concat(s2, t3);
    assert(le_spec(t2) == le_spec(s2) + 0x100_0000_0000_0000 * le_spec(t3));
    lemma_le_concat(s1, t2);
    assert(le_spec(t1) == le_spec(s1) + 0x100_0000_0000_0000 * le_spec(t2));
    lemma_le_concat(s0, t1);
    assert(le_spec(t0) == le_spec(s0) + 0x100_0000_0000_0000 * le_spec(t1));
}

/// One step of subtracting `p`: `limb - modulus_limb - borrow == difference - 2^56 borrow_out`.
fn subtract_limb(limb: u64, modulus_limb: u64, borrow: u64) -> (result: (u64, u64))
    requires
        limb < 0x100_0000_0000_0000,
        0x100_0000_0000_0000 - 2 <= modulus_limb < 0x100_0000_0000_0000,
        borrow <= 1,
    ensures
        result.0 < 0x100_0000_0000_0000,
        result.1 <= 1,
        limb - modulus_limb - borrow == result.0 - 0x100_0000_0000_0000 * result.1,
{
    let tentative = limb + 0x100_0000_0000_0000 - (modulus_limb + borrow);
    let difference = tentative % 0x100_0000_0000_0000;
    let borrow_out = 1 - tentative / 0x100_0000_0000_0000;
    (difference, borrow_out)
}

/// Subtracting `p` limb by limb from a value below `2p` and keeping the difference exactly when
/// no borrow is left yields the value modulo `p`.
proof fn lemma_select_reduced(l: [u64; 8], d: [u64; 8], b: [u64; 8], canonical: [u64; 8])
    requires
        reduced_limbs(l),
        reduced_limbs(d),
        b[7] <= 1,
        l[0] - MODULUS_LIMBS[0] - 0 == d[0] - 0x100_0000_0000_0000 * b[0],
        l[1] - MODULUS_LIMBS[1] - b[0] == d[1] - 0x100_0000_0000_0000 * b[1],
        l[2] - MODULUS_LIMBS[2] - b[1] == d[2] - 0x100_0000_0000_0000 * b[2],
        l[3] - MODULUS_LIMBS[3] - b[2] == d[3] - 0x100_0000_0000_0000 * b[3],
        l[4] - MODULUS_LIMBS[4] - b[3] == d[4] - 0x100_0000_0000_0000 * b[4],
        l[5] - MODULUS_LIMBS[5] - b[4] == d[5] - 0x100_0000_0000_0000 * b[5],
        l[6] - MODULUS_LIMBS[6] - b[5] == d[6] - 0x100_0000_0000_0000 * b[6],
        l[7] - MODULUS_LIMBS[7] - b[6] == d[7] - 0x100_0000_0000_0000 * b[7],
        b[7] == 0 ==> canonical == d,
        b[7] == 1 ==> canonical == l,
    ensures
        limbs_value(canonical) == limbs_value(l) % p448(),
{
    let p = p448();
    let big = limbs_value(l);
    let diff = limbs_value(d);
    assert(big - p == diff - 0x1_0000_0000_0000_0000_0000_0000_0000_0000_0000_0000_0000_0000_0000_0000_0000_0000_0000_0000_0000_0000_0000_0000_0000_0000_0000_0000_0000_0000int * b[7]);
    assert(0 <= big < 2 * p);
    if b[7] == 0 {
        lemma_mod_multiples_vanish(1, diff, p);
        lemma_small_mod(diff as nat, p as nat);
    } else {
        lemma_small_mod(big as nat, p as nat);
    }
}

/// Fully reduce limbs: the result encodes the value modulo `p` with every limb below `2^56`.
pub fn canonical_limbs(limbs: [u64; 8]) -> (canonical: [u64; 8])
    ensures
        limbs_value(canonical) == limbs_value(limbs) % p448(),
        reduced_limbs(canonical),
{
    let wide = [limbs[0] as u128, limbs[1] as u128, limbs[2] as u128, limbs[3] as u128, limbs[4] as u128,
        limbs[5] as u128, limbs[6] as u128, limbs[7] as u128];
    let l = reduce_coefficients(wide);
    let (d0, b0) = subtract_limb(l[0], MODULUS_LIMBS[0], 0);
    let (d1, b1) = subtract_limb(l[1], MODULUS_LIMBS[1], b0);
    let (d2, b2) = subtract_limb(l[2], MODULUS_LIMBS[2], b1);
    let (d3, b3) = subtract_limb(l[3], MODULUS_LIMBS[3], b2);
    let (d4, b4) = subtract_limb(l[4], MODULUS_LIMBS[4], b3);
    let (d5, b5) = subtract_limb(l[5], MODULUS_LIMBS[5], b4);
    let (d6, b6) = subtract_limb(l[6], MODULUS_LIMBS[6], b5);
    let (d7, b7) = subtract_limb(l[7], MODULUS_LIMBS[7], b6);
    // A final borrow of zero means the reduced value was at least `p`: keep the difference.
    // The choice is made with a mask, so no branch depends on the value.
    let use_difference = 1 - b7;
    let selection_mask = 0u64.wrapping_sub(use_difference);
    let canonical = select_limbs(selection_mask, l, [d0, d1, d2, d3, d4, d5, d6, d7]);
    proof {
        assert(wide_value(wide) == limbs_value(limbs));
        lemma_select_reduced(l, [d0, d1, d2, d3, d4, d5, d6, d7], [b0, b1, b2, b3, b4, b5, b6, b7], canonical);
    }
    canonical
}

/// `p - 2 = 2^448 - 2^224 - 3`, little-endian: the exponent that inverts by Fermat's little
/// theorem.
pub const INVERSE_EXPONENT: [u8; 56] = [
    0xfd, 0xff, 0xff, 0xff, 0xff, 0xff, 0xff, 0xff, 0xff, 0xff, 0xff, 0xff, 0xff, 0xff,
    0xff, 0xff, 0xff, 0xff, 0xff, 0xff, 0xff, 0xff, 0xff, 0xff, 0xff, 0xff, 0xff, 0xff,
    0xfe, 0xff, 0xff, 0xff, 0xff, 0xff, 0xff, 0xff, 0xff, 0xff, 0xff, 0xff, 0xff, 0xff,
    0xff, 0xff, 0xff, 0xff, 0xff, 0xff, 0xff, 0xff, 0xff, 0xff, 0xff, 0xff, 0xff, 0xff,
];

/// Bit `i` of `p - 2`: every bit below 448 is set except bits one and 224.
pub open spec fn exponent_bit_spec(i: int) -> int {
    if i == 1 || i == 224 {
        0
    } else {
        1
    }
}

/// The bits of `p - 2` from 447 down to `i`, read as a number.
pub open spec fn exponent_prefix(i: nat) -> nat
    decreases 448 - i,
{
    if i >= 448 {
        0
    } else {
        (2 * exponent_prefix(i + 1) + exponent_bit_spec(i as int)) as nat
    }
}

/// The low bits of the three distinct bytes of the exponent.
proof fn lemma_exponent_byte_bits(shift: u8)
    by (bit_vector)
    requires
        shift < 8,
    ensures
        (0xffu8 >> shift) & 1u8 == 1u8,
        shift == 1 ==> (0xfdu8 >> shift) & 1u8 == 0u8,
        shift != 1 ==> (0xfdu8 >> shift) & 1u8 == 1u8,
        shift == 0 ==> (0xfeu8 >> shift) & 1u8 == 0u8,
        shift != 0 ==> (0xfeu8 >> shift) & 1u8 == 1u8,
{
}

/// Bit `bit_index` of the inversion exponent, read from its bytes.
fn inverse_exponent_bit(bit_index: usize) -> (bit: u8)
    requires
        bit_index < 448,
    ensures
        bit == exponent_bit_spec(bit_index as int),
{
    let byte = INVERSE_EXPONENT[bit_index / 8];
    let shift = (bit_index % 8) as u8;
    proof {
        lemma_exponent_byte_bits(shift);
        if bit_index / 8 == 0 {
            assert(byte == 0xfd);
        } else if bit_index / 8 == 28 {
            assert(byte == 0xfe);
        } else {
            assert(byte == 0xff);
        }
    }
    (byte >> shift) & 1
}

/// The bits of `p - 2` from 447 down to `i >= 225` are all ones.
proof fn lemma_exponent_high(i: nat)
    requires
        225 <= i <= 448,
    ensures
        exponent_prefix(i) == pow2((448 - i) as nat) - 1,
    decreases 448 - i,
{
    if i == 448 {
        lemma2_to64();
    } else {
        lemma_exponent_high(i + 1);
        lemma_pow2_unfold((448 - i) as nat);
    }
}

/// Below bit 225 the prefix also misses bit 224.
proof fn lemma_exponent_middle(i: nat)
    requires
        2 <= i <= 224,
    ensures
        exponent_prefix(i) == pow2((448 - i) as nat) - pow2((224 - i) as nat) - 1,
    decreases 224 - i,
{
    if i == 224 {
        lemma_exponent_high(225);
        lemma_pow2_unfold(224);
        lemma2_to64();
    } else {
        lemma_exponent_middle(i + 1);
        lemma_pow2_unfold((448 - i) as nat);
        lemma_pow2_unfold((224 - i) as nat);
    }
}

/// All the bits of the exponent make `p - 2`.
proof fn lemma_exponent_value()
    ensures
        exponent_prefix(0) == p448() - 2,
{
    lemma_exponent_middle(2);
    lemma2_to64();
    lemma_pow2_adds(64, 30);
    lemma_pow2_adds(64, 94);
    lemma_pow2_adds(64, 158);
    lemma_pow2_adds(222, 2);
    lemma_pow2_adds(222, 224);
    assert(pow2(94) == 0x4000_0000_0000_0000_0000_0000int);
    assert(pow2(158) == 0x4000_0000_0000_0000_0000_0000_0000_0000_0000_0000int);
    assert(pow2(222) == 0x4000_0000_0000_0000_0000_0000_0000_0000_0000_0000_0000_0000_0000_0000int);
    assert(pow2(224) == 0x1_0000_0000_0000_0000_0000_0000_0000_0000_0000_0000_0000_0000_0000_0000int);
    assert(pow2(446) == 0x4000_0000_0000_0000_0000_0000_0000_0000_0000_0000_0000_0000_0000_0000_0000_0000_0000_0000_0000_0000_0000_0000_0000_0000_0000_0000_0000_0000int);
    reveal_with_fuel(exponent_prefix, 3);
}

/// Squaring `x^e` and multiplying by `x` when the next bit is set gives `x^(2e + bit)`.
proof fn lemma_power_step(x: int, e: nat, bit: int, squared: int, next: int)
    requires
        0 <= x < p448(),
        bit == 0 || bit == 1,
        squared == ((pow(x, e) % p448()) * (pow(x, e) % p448())) % p448(),
        bit == 0 ==> next == squared,
        bit == 1 ==> next == (squared * x) % p448(),
    ensures
        next == pow(x, (2 * e + bit) as nat) % p448(),
{
    let p = p448();
    lemma_mul_mod_noop(pow(x, e), pow(x, e), p);
    lemma_pow_adds(x, e, e);
    assert(squared == pow(x, e + e) % p);
    if bit == 1 {
        lemma_small_mod(x as nat, p as nat);
        lemma_mul_mod_noop(pow(x, e + e), x, p);
        lemma_pow1(x);
        lemma_pow_adds(x, e + e, 1);
        assert(next == pow(x, (e + e + 1) as nat) % p);
    }
}

/// A field element: eight limbs whose value is taken modulo `p`.
pub struct FieldElement {
    limbs: [u64; 8],
}

impl FieldElement {
    /// The limbs are reduced.
    pub closed spec fn wf(&self) -> bool {
        reduced_limbs(self.limbs)
    }

    /// The residue the limbs stand for, in `[0, p)`.
    pub closed spec fn value(&self) -> int {
        limbs_value(self.limbs) % p448()
    }

    /// Zero.
    pub fn zero() -> (zero: Self)
        ensures
            zero.wf(),
            zero.value() == 0,
    {
        FieldElement { limbs: [0, 0, 0, 0, 0, 0, 0, 0] }
    }

    /// One.
    pub fn one() -> (one: Self)
        ensures
            one.wf(),
            one.value() == 1,
    {
        FieldElement { limbs: [1, 0, 0, 0, 0, 0, 0, 0] }
    }

    /// Carry coefficients into a field element.
    fn from_coefficients(coefficients: [u128; 8]) -> (element: Self)
        requires
            wide_bounded(coefficients),
        ensures
            element.wf(),
            element.value() == wide_value(coefficients) % p448(),
    {
        FieldElement { limbs: reduce_coefficients(coefficients) }
    }

    /// Decode a u-coordinate: 56 little-endian bytes, seven per limb, any value accepted as its
    /// residue.
    pub fn from_bytes(bytes: &[u8; 56]) -> (element: Self)
        ensures
            element.wf(),
            element.value() == le_spec(bytes@) % p448(),
    {
        let limbs = [
            load_limb(bytes, 0),
            load_limb(bytes, 7),
            load_limb(bytes, 14),
            load_limb(bytes, 21),
            load_limb(bytes, 28),
            load_limb(bytes, 35),
            load_limb(bytes, 42),
            load_limb(bytes, 49),
        ];
        proof {
            lemma_le_limbs(bytes@);
        }
        FieldElement { limbs }
    }

    /// The canonical 56-byte little-endian encoding of the residue.
    pub fn to_bytes(&self) -> (bytes: [u8; 56])
        ensures
            le_spec(bytes@) == self.value(),
    {
        let c = canonical_limbs(self.limbs);
        let b0 = limb_bytes(c[0]);
        let b1 = limb_bytes(c[1]);
        let b2 = limb_bytes(c[2]);
        let b3 = limb_bytes(c[3]);
        let b4 = limb_bytes(c[4]);
        let b5 = limb_bytes(c[5]);
        let b6 = limb_bytes(c[6]);
        let b7 = limb_bytes(c[7]);
        let bytes = [
            b0[0], b0[1], b0[2], b0[3], b0[4], b0[5], b0[6],
            b1[0], b1[1], b1[2], b1[3], b1[4], b1[5], b1[6],
            b2[0], b2[1], b2[2], b2[3], b2[4], b2[5], b2[6],
            b3[0], b3[1], b3[2], b3[3], b3[4], b3[5], b3[6],
            b4[0], b4[1], b4[2], b4[3], b4[4], b4[5], b4[6],
            b5[0], b5[1], b5[2], b5[3], b5[4], b5[5], b5[6],
            b6[0], b6[1], b6[2], b6[3], b6[4], b6[5], b6[6],
            b7[0], b7[1], b7[2], b7[3], b7[4], b7[5], b7[6],
        ];
        proof {
            assert(bytes@.subrange(0, 7) =~= b0@);
            assert(bytes@.subrange(7, 14) =~= b1@);
            assert(bytes@.subrange(14, 21) =~= b2@);
            assert(bytes@.subrange(21, 28) =~= b3@);
            assert(bytes@.subrange(28, 35) =~= b4@);
            assert(bytes@.subrange(35, 42) =~= b5@);
            assert(bytes@.subrange(42, 49) =~= b6@);
            assert(bytes@.subrange(49, 56) =~= b7@);
            lemma_le_limbs(bytes@);
        }
        bytes
    }

    /// `self + right` modulo `p`.
    pub fn add(&self, right: &Self) -> (sum: Self)
        requires
            self.wf(),
            right.wf(),
        ensures
            sum.wf(),
            sum.value() == field_add(self.value(), right.value()),
    {
        let a = self.limbs;
        let b = right.limbs;
        let coefficients = [
            a[0] as u128 + b[0] as u128,
            a[1] as u128 + b[1] as u128,
            a[2] as u128 + b[2] as u128,
            a[3] as u128 + b[3] as u128,
            a[4] as u128 + b[4] as u128,
            a[5] as u128 + b[5] as u128,
            a[6] as u128 + b[6] as u128,
            a[7] as u128 + b[7] as u128,
        ];
        proof {
            assert(wide_value(coefficients) == limbs_value(a) + limbs_value(b));
            lemma_add_mod_noop(limbs_value(a), limbs_value(b), p448());
        }
        Self::from_coefficients(coefficients)
    }

    /// `self - right` modulo `p`; adding `2p` first keeps every coefficient nonnegative.
    pub fn subtract(&self, right: &Self) -> (difference: Self)
        requires
            self.wf(),
            right.wf(),
        ensures
            difference.wf(),
            difference.value() == field_sub(self.value(), right.value()),
    {
        let a = self.limbs;
        let b = right.limbs;
        let coefficients = [
            a[0] as u128 + 2 * MODULUS_LIMBS[0] as u128 - b[0] as u128,
            a[1] as u128 + 2 * MODULUS_LIMBS[1] as u128 - b[1] as u128,
            a[2] as u128 + 2 * MODULUS_LIMBS[2] as u128 - b[2] as u128,
            a[3] as u128 + 2 * MODULUS_LIMBS[3] as u128 - b[3] as u128,
            a[4] as u128 + 2 * MODULUS_LIMBS[4] as u128 - b[4] as u128,
            a[5] as u128 + 2 * MODULUS_LIMBS[5] as u128 - b[5] as u128,
            a[6] as u128 + 2 * MODULUS_LIMBS[6] as u128 - b[6] as u128,
            a[7] as u128 + 2 * MODULUS_LIMBS[7] as u128 - b[7] as u128,
        ];
        proof {
            let p = p448();
            assert(wide_value(coefficients) == limbs_value(a) - limbs_value(b) + 2 * p);
            lemma_mod_multiples_vanish(2, limbs_value(a) - limbs_value(b), p);
            lemma_sub_mod_noop(limbs_value(a), limbs_value(b), p);
        }
        Self::from_coefficients(coefficients)
    }

    /// `self * right` modulo `p`: schoolbook products, with terms at radix power eight or more
    /// folded by `2^448 = 2^224 + 1`, twice for powers twelve and up.
    #[verifier::rlimit(30)]
    pub fn multiply(&self, right: &Self) -> (product: Self)
        requires
            self.wf(),
            right.wf(),
        ensures
            product.wf(),
            product.value() == field_mul(self.value(), right.value()),
    {
        let a = self.limbs;
        let b = right.limbs;
        let m00 = limb_product(a[0], b[0]);
        let m01 = limb_product(a[0], b[1]);
        let m02 = limb_product(a[0], b[2]);
        let m03 = limb_product(a[0], b[3]);
        let m04 = limb_product(a[0], b[4]);
        let m05 = limb_product(a[0], b[5]);
        let m06 = limb_product(a[0], b[6]);
        let m07 = limb_product(a[0], b[7]);
        let m10 = limb_product(a[1], b[0]);
        let m11 = limb_product(a[1], b[1]);
        let m12 = limb_product(a[1], b[2]);
        let m13 = limb_product(a[1], b[3]);
        let m14 = limb_product(a[1], b[4]);
        let m15 = limb_product(a[1], b[5]);
        let m16 = limb_product(a[1], b[6]);
        let m17 = limb_product(a[1], b[7]);
        let m20 = limb_product(a[2], b[0]);
        let m21 = limb_product(a[2], b[1]);
        let m22 = limb_product(a[2], b[2]);
        let m23 = limb_product(a[2], b[3]);
        let m24 = limb_product(a[2], b[4]);
        let m25 = limb_product(a[2], b[5]);
        let m26 = limb_product(a[2], b[6]);
        let m27 = limb_product(a[2], b[7]);
        let m30 = limb_product(a[3], b[0]);
        let m31 = limb_product(a[3], b[1]);
        let m32 = limb_product(a[3], b[2]);
        let m33 = limb_product(a[3], b[3]);
        let m34 = limb_product(a[3], b[4]);
        let m35 = limb_product(a[3], b[5]);
        let m36 = limb_product(a[3], b[6]);
        let m37 = limb_product(a[3], b[7]);
        let m40 = limb_product(a[4], b[0]);
        let m41 = limb_product(a[4], b[1]);
        let m42 = limb_product(a[4], b[2]);
        let m43 = limb_product(a[4], b[3]);
        let m44 = limb_product(a[4], b[4]);
        let m45 = limb_product(a[4], b[5]);
        let m46 = limb_product(a[4], b[6]);
        let m47 = limb_product(a[4], b[7]);
        let m50 = limb_product(a[5], b[0]);
        let m51 = limb_product(a[5], b[1]);
        let m52 = limb_product(a[5], b[2]);
        let m53 = limb_product(a[5], b[3]);
        let m54 = limb_product(a[5], b[4]);
        let m55 = limb_product(a[5], b[5]);
        let m56 = limb_product(a[5], b[6]);
        let m57 = limb_product(a[5], b[7]);
        let m60 = limb_product(a[6], b[0]);
        let m61 = limb_product(a[6], b[1]);
        let m62 = limb_product(a[6], b[2]);
        let m63 = limb_product(a[6], b[3]);
        let m64 = limb_product(a[6], b[4]);
        let m65 = limb_product(a[6], b[5]);
        let m66 = limb_product(a[6], b[6]);
        let m67 = limb_product(a[6], b[7]);
        let m70 = limb_product(a[7], b[0]);
        let m71 = limb_product(a[7], b[1]);
        let m72 = limb_product(a[7], b[2]);
        let m73 = limb_product(a[7], b[3]);
        let m74 = limb_product(a[7], b[4]);
        let m75 = limb_product(a[7], b[5]);
        let m76 = limb_product(a[7], b[6]);
        let m77 = limb_product(a[7], b[7]);
        let coefficients = [
            m00 + m17 + m26 + m35 + m44 + m53 + m62 + m71 + m57 + m66 + m75,
            m01 + m10 + m27 + m36 + m45 + m54 + m63 + m72 + m67 + m76,
            m02 + m11 + m20 + m37 + m46 + m55 + m64 + m73 + m77,
            m03 + m12 + m21 + m30 + m47 + m56 + m65 + m74,
            m04 + m13 + m22 + m31 + m40 + m17 + m26 + m35 + m44 + m53 + m62 + m71 + 2 * m57 + 2 * m66 + 2 * m75,
            m05 + m14 + m23 + m32 + m41 + m50 + m27 + m36 + m45 + m54 + m63 + m72 + 2 * m67 + 2 * m76,
            m06 + m15 + m24 + m33 + m42 + m51 + m60 + m37 + m46 + m55 + m64 + m73 + 2 * m77,
            m07 + m16 + m25 + m34 + m43 + m52 + m61 + m70 + m47 + m56 + m65 + m74,
        ];
        proof {
            lemma_multiply_value(a, b, coefficients);
            lemma_mul_mod_noop(limbs_value(a), limbs_value(b), p448());
        }
        Self::from_coefficients(coefficients)
    }

    /// `self * self` modulo `p`.
    pub fn square(&self) -> (square: Self)
        requires
            self.wf(),
        ensures
            square.wf(),
            square.value() == field_mul(self.value(), self.value()),
    {
        self.multiply(self)
    }

    /// `self * value` modulo `p` for a public constant.
    pub fn multiply_small(&self, value: u64) -> (product: Self)
        requires
            self.wf(),
        ensures
            product.wf(),
            product.value() == field_mul(self.value(), value as int),
    {
        let a = self.limbs;
        let v = value as u128;
        proof {
            assert forall|x: u64| x < 0x100_0000_0000_0000 implies #[trigger] (x * value) < 0x100_0000_0000_0000_0000_0000_0000_0000 by {
                assert(x * value < 0x100_0000_0000_0000_0000_0000_0000_0000) by (nonlinear_arith)
                    requires x < 0x100_0000_0000_0000, value < 0x1_0000_0000_0000_0000int;
            }
            assert(a[0] * value < 0x100_0000_0000_0000_0000_0000_0000_0000);
            assert(a[1] * value < 0x100_0000_0000_0000_0000_0000_0000_0000);
            assert(a[2] * value < 0x100_0000_0000_0000_0000_0000_0000_0000);
            assert(a[3] * value < 0x100_0000_0000_0000_0000_0000_0000_0000);
            assert(a[4] * value < 0x100_0000_0000_0000_0000_0000_0000_0000);
            assert(a[5] * value < 0x100_0000_0000_0000_0000_0000_0000_0000);
            assert(a[6] * value < 0x100_0000_0000_0000_0000_0000_0000_0000);
            assert(a[7] * value < 0x100_0000_0000_0000_0000_0000_0000_0000);
        }
        let coefficients = [a[0] as u128 * v, a[1] as u128 * v, a[2] as u128 * v, a[3] as u128 * v,
            a[4] as u128 * v, a[5] as u128 * v, a[6] as u128 * v, a[7] as u128 * v];
        proof {
            let p = p448();
            let (a0, a1, a2, a3, a4, a5, a6, a7) = (a[0] as int, a[1] as int, a[2] as int, a[3] as int,
                a[4] as int, a[5] as int, a[6] as int, a[7] as int);
            let w = value as int;
            assert(limbs_value(a) * w == wide_value(coefficients)) by (nonlinear_arith)
                requires
                    limbs_value(a) == a0 + a1 * 0x100_0000_0000_0000int
                        + a2 * 0x1_0000_0000_0000_0000_0000_0000_0000int
                        + a3 * 0x100_0000_0000_0000_0000_0000_0000_0000_0000_0000_0000int
                        + a4 * 0x1_0000_0000_0000_0000_0000_0000_0000_0000_0000_0000_0000_0000_0000_0000int
                        + a5 * 0x100_0000_0000_0000_0000_0000_0000_0000_0000_0000_0000_0000_0000_0000_0000_0000_0000_0000int
                        + a6 * 0x1_0000_0000_0000_0000_0000_0000_0000_0000_0000_0000_0000_0000_0000_0000_0000_0000_0000_0000_0000_0000_0000int
                        + a7 * 0x100_0000_0000_0000_0000_0000_0000_0000_0000_0000_0000_0000_0000_0000_0000_0000_0000_0000_0000_0000_0000_0000_0000_0000_0000int,
                    wide_value(coefficients) == (a0 * w) + (a1 * w) * 0x100_0000_0000_0000int
                        + (a2 * w) * 0x1_0000_0000_0000_0000_0000_0000_0000int
                        + (a3 * w) * 0x100_0000_0000_0000_0000_0000_0000_0000_0000_0000_0000int
                        + (a4 * w) * 0x1_0000_0000_0000_0000_0000_0000_0000_0000_0000_0000_0000_0000_0000_0000int
                        + (a5 * w) * 0x100_0000_0000_0000_0000_0000_0000_0000_0000_0000_0000_0000_0000_0000_0000_0000_0000_0000int
                        + (a6 * w) * 0x1_0000_0000_0000_0000_0000_0000_0000_0000_0000_0000_0000_0000_0000_0000_0000_0000_0000_0000_0000_0000_0000int
                        + (a7 * w) * 0x100_0000_0000_0000_0000_0000_0000_0000_0000_0000_0000_0000_0000_0000_0000_0000_0000_0000_0000_0000_0000_0000_0000_0000_0000int;
            lemma_mul_mod_noop(limbs_value(a), w, p);
            lemma_small_mod(w as nat, p as nat);
        }
        Self::from_coefficients(coefficients)
    }

    /// `self^(p - 2)` by a fixed square-and-multiply schedule over the public exponent; the
    /// inverse of a nonzero element.
    pub fn invert(&self) -> (inverse: Self)
        requires
            self.wf(),
        ensures
            inverse.wf(),
            inverse.value() == pow(self.value(), (p448() - 2) as nat) % p448(),
    {
        let mut result = Self::one();
        let mut remaining: usize = 448;
        proof {
            lemma_pow0(self.value());
        }
        while remaining > 0
            invariant
                remaining <= 448,
                self.wf(),
                result.wf(),
                result.value() == pow(self.value(), exponent_prefix(remaining as nat)) % p448(),
            decreases remaining,
        {
            let bit_index = remaining - 1;
            let ghost e = exponent_prefix(remaining as nat);
            result = result.square();
            let ghost squared = result.value();
            let exponent_bit = inverse_exponent_bit(bit_index);
            if exponent_bit == 1 {
                result = result.multiply(self);
            }
            proof {
                lemma_power_step(self.value(), e, exponent_bit as int, squared, result.value());
            }
            remaining = bit_index;
        }
        proof {
            lemma_exponent_value();
        }
        result
    }

    /// Exchange the two elements when `swap` is one, keep them when it is zero, through the
    /// mask `0 - swap` so the work done does not depend on `swap`.
    pub fn conditional_swap(swap: u64, left: &mut Self, right: &mut Self)
        requires
            swap <= 1,
        ensures
            swap == 0 ==> *final(left) == *old(left) && *final(right) == *old(right),
            swap == 1 ==> *final(left) == *old(right) && *final(right) == *old(left),
    {
        let mask = 0u64.wrapping_sub(swap);
        let l = left.limbs;
        let r = right.limbs;
        let (l0, r0) = swap_limbs(mask, l[0], r[0]);
        let (l1, r1) = swap_limbs(mask, l[1], r[1]);
        let (l2, r2) = swap_limbs(mask, l[2], r[2]);
        let (l3, r3) = swap_limbs(mask, l[3], r[3]);
        let (l4, r4) = swap_limbs(mask, l[4], r[4]);
        let (l5, r5) = swap_limbs(mask, l[5], r[5]);
        let (l6, r6) = swap_limbs(mask, l[6], r[6]);
        let (l7, r7) = swap_limbs(mask, l[7], r[7]);
        left.limbs = [l0, l1, l2, l3, l4, l5, l6, l7];
        right.limbs = [r0, r1, r2, r3, r4, r5, r6, r7];
        proof {
            if swap == 0 {
                assert(left.limbs =~= l);
                assert(right.limbs =~= r);
            } else {
                assert(left.limbs =~= r);
                assert(right.limbs =~= l);
            }
        }
    }
}

} // verus!
