//! Poly1305 (RFC 8439 §2.5): a one-time authenticator over `GF(2^130 - 5)`.
//!
//! The 32-byte one-time key is split into `r` (clamped) and `s`. Each sixteen-byte block of the
//! message, read little-endian with one more byte of value one appended, is added to the
//! accumulator, which is then multiplied by `r` modulo `p = 2^130 - 5`; a final shorter block is
//! padded the same way. The tag is the accumulator plus `s`, modulo `2^128`, little-endian.
//!
//! The accumulator is held in three limbs of 44, 44, and 42 bits, so every partial product fits
//! in 128 bits; `2^132 = 20 (mod p)` folds the high products back.

use vstd::arithmetic::div_mod::{lemma_add_mod_noop, lemma_mod_multiples_vanish, lemma_mul_mod_noop_left};
use vstd::prelude::*;

use crate::bits::{
    le_bytes_spec, le_spec, lemma_le_concat, lemma_le_eight, lemma_le_zeros, lemma_mask_u8, lemma_or_difference,
    lemma_pow256_positive, lemma_pow256_values, pow256_spec,
};
use crate::block_buffer::{BlockBuffer, blocks_spec, lemma_fragmentation_preserves_blocks, tail_spec};
use crate::error::{CryptoError, CryptoResult};
use crate::secret::SecretBytes;
use crate::wipe::wipe_array;

verus! {

/// `p = 2^130 - 5`.
pub open spec fn p_spec() -> int {
    0x3_ffff_ffff_ffff_ffff_ffff_ffff_ffff_fffbint
}

/// The value of three limbs of 44, 44, and 42 bits.
pub open spec fn limbs_value_spec(l0: int, l1: int, l2: int) -> int {
    l0 + l1 * 0x1000_0000_0000 + l2 * 0x100_0000_0000_0000_0000_0000
}

/// The little-endian value of eight bytes `bytes[at .. at + 8]`.
pub fn load_le64(bytes: &[u8; 16], at: usize) -> (word: u64)
    requires
        at + 8 <= 16,
    ensures
        word == le_spec(bytes@.subrange(at as int, at + 8)),
{
    proof {
        lemma_le_eight(bytes@.subrange(at as int, at + 8));
    }
    bytes[at] as u64 + bytes[at + 1] as u64 * 0x100 + bytes[at + 2] as u64 * 0x1_0000 + bytes[at + 3] as u64 * 0x100_0000
        + bytes[at + 4] as u64 * 0x1_0000_0000 + bytes[at + 5] as u64 * 0x100_0000_0000
        + bytes[at + 6] as u64 * 0x1_0000_0000_0000 + bytes[at + 7] as u64 * 0x100_0000_0000_0000
}

/// Split `t0 + 2^64 t1 + 2^128 high` into limbs of 44, 44, and 42 bits.
pub fn split_limbs(t0: u64, t1: u64, high: u128) -> (limbs: [u128; 3])
    requires
        high <= 1,
    ensures
        limbs_value_spec(limbs[0] as int, limbs[1] as int, limbs[2] as int)
            == t0 + t1 * 0x1_0000_0000_0000_0000 + high * 0x1_0000_0000_0000_0000_0000_0000_0000_0000int,
        limbs[0] < 0x1000_0000_0000,
        limbs[1] < 0x1000_0000_0000,
        limbs[2] <= (t1 as int) / 0x100_0000 + high * 0x100_0000_0000,
{
    let l0 = t0 as u128 % 0x1000_0000_0000;
    let l1 = t0 as u128 / 0x1000_0000_0000 + (t1 as u128 % 0x100_0000) * 0x10_0000;
    let l2 = t1 as u128 / 0x100_0000 + high * 0x100_0000_0000;
    assert(t0 == l0 + (t0 / 0x1000_0000_0000) * 0x1000_0000_0000);
    assert(t1 == (t1 % 0x100_0000) + (t1 / 0x100_0000) * 0x100_0000);
    [l0, l1, l2]
}

/// A product of bounded naturals is bounded by the product of the bounds.
proof fn lemma_mul_bounded(a: int, b: int, a_bound: int, b_bound: int)
    requires
        0 <= a <= a_bound,
        0 <= b <= b_bound,
    ensures
        0 <= a * b <= a_bound * b_bound,
{
    assert(0 <= a * b <= a_bound * b_bound) by (nonlinear_arith)
        requires 0 <= a <= a_bound, 0 <= b <= b_bound;
}

/// The product of two limb values equals the three folded coefficient sums plus a multiple of
/// `p`, because `2^132 = 4p + 20`.
proof fn lemma_product_fold(h0: int, h1: int, h2: int, r0: int, r1: int, r2: int)
    ensures
        limbs_value_spec(h0, h1, h2) * limbs_value_spec(r0, r1, r2) == limbs_value_spec(
            h0 * r0 + 20 * (h1 * r2) + 20 * (h2 * r1),
            h0 * r1 + h1 * r0 + 20 * (h2 * r2),
            h0 * r2 + h1 * r1 + h2 * r0,
        ) + p_spec() * (4 * (h1 * r2 + h2 * r1) + 4 * 0x1000_0000_0000 * (h2 * r2)),
{
    let b = limbs_value_spec(r0, r1, r2);
    let (m00, m01, m02) = (h0 * r0, h0 * r1, h0 * r2);
    let (m10, m11, m12) = (h1 * r0, h1 * r1, h1 * r2);
    let (m20, m21, m22) = (h2 * r0, h2 * r1, h2 * r2);
    assert(limbs_value_spec(h0, h1, h2) * b == h0 * b + (h1 * 0x1000_0000_0000) * b
        + (h2 * 0x100_0000_0000_0000_0000_0000) * b) by (nonlinear_arith);
    assert(h0 * b == m00 + m01 * 0x1000_0000_0000 + m02 * 0x100_0000_0000_0000_0000_0000) by (nonlinear_arith)
        requires b == limbs_value_spec(r0, r1, r2), m00 == h0 * r0, m01 == h0 * r1, m02 == h0 * r2;
    assert((h1 * 0x1000_0000_0000) * b == m10 * 0x1000_0000_0000 + m11 * 0x100_0000_0000_0000_0000_0000
        + m12 * 0x10_0000_0000_0000_0000_0000_0000_0000_0000int) by (nonlinear_arith)
        requires b == limbs_value_spec(r0, r1, r2), m10 == h1 * r0, m11 == h1 * r1, m12 == h1 * r2;
    assert((h2 * 0x100_0000_0000_0000_0000_0000) * b == m20 * 0x100_0000_0000_0000_0000_0000
        + m21 * 0x10_0000_0000_0000_0000_0000_0000_0000_0000int
        + m22 * 0x1_0000_0000_0000_0000_0000_0000_0000_0000_0000_0000_0000int) by (nonlinear_arith)
        requires b == limbs_value_spec(r0, r1, r2), m20 == h2 * r0, m21 == h2 * r1, m22 == h2 * r2;
    let whole = limbs_value_spec(h0, h1, h2) * b;
    assert(whole == m00 + (m01 + m10) * 0x1000_0000_0000 + (m02 + m11 + m20) * 0x100_0000_0000_0000_0000_0000
        + (m12 + m21) * 0x10_0000_0000_0000_0000_0000_0000_0000_0000int
        + m22 * 0x1_0000_0000_0000_0000_0000_0000_0000_0000_0000_0000_0000int);
    let k = 4 * (m12 + m21) + 4 * 0x1000_0000_0000 * m22;
    assert(0x3_ffff_ffff_ffff_ffff_ffff_ffff_ffff_fffbint * k
        == (m12 + m21) * (0x10_0000_0000_0000_0000_0000_0000_0000_0000int - 20)
        + m22 * (0x1_0000_0000_0000_0000_0000_0000_0000_0000_0000_0000_0000int - 20 * 0x1000_0000_0000)) by (nonlinear_arith)
        requires k == 4 * (m12 + m21) + 4 * 0x1000_0000_0000 * m22;
    assert(p_spec() == 0x3_ffff_ffff_ffff_ffff_ffff_ffff_ffff_fffbint);
    let p = p_spec();
    assert(whole == (m00 + 20 * m12 + 20 * m21) + (m01 + m10 + 20 * m22) * 0x1000_0000_0000
        + (m02 + m11 + m20) * 0x100_0000_0000_0000_0000_0000
        + p * k) by (nonlinear_arith)
        requires
            p == 0x3_ffff_ffff_ffff_ffff_ffff_ffff_ffff_fffbint,
            0x3_ffff_ffff_ffff_ffff_ffff_ffff_ffff_fffbint * k
                == (m12 + m21) * (0x10_0000_0000_0000_0000_0000_0000_0000_0000int - 20)
                + m22 * (0x1_0000_0000_0000_0000_0000_0000_0000_0000_0000_0000_0000int - 20 * 0x1000_0000_0000),
            whole == m00 + (m01 + m10) * 0x1000_0000_0000 + (m02 + m11 + m20) * 0x100_0000_0000_0000_0000_0000
                + (m12 + m21) * 0x10_0000_0000_0000_0000_0000_0000_0000_0000int
                + m22 * 0x1_0000_0000_0000_0000_0000_0000_0000_0000_0000_0000_0000int;
}

/// Limbs are reduced enough to absorb one more block.
pub open spec fn accumulator_bounded(h: [u128; 3]) -> bool {
    h[0] < 0x2000_0000_0000 && h[1] < 0x2000_0000_0000 + 0x800 && h[2] < 0x1000_0000_0000
}

/// Limbs as produced by one multiplication.
pub open spec fn accumulator_reduced(h: [u128; 3]) -> bool {
    h[0] < 0x1000_0000_0000 && h[1] < 0x1000_0000_0000 + 0x400 && h[2] < 0x400_0000_0000
}

/// The limbs of a clamped `r`.
pub open spec fn r_limbs_bounded(r: [u128; 3]) -> bool {
    r[0] < 0x1000_0000_0000 && r[1] < 0x1000_0000_0000 && r[2] < 0x10_0000_0000
}

/// The value of a three-limb array.
pub open spec fn value_spec(l: [u128; 3]) -> int {
    limbs_value_spec(l[0] as int, l[1] as int, l[2] as int)
}

/// `h * r mod p` on limbs, leaving reduced limbs.
pub fn multiply_reduce(h: [u128; 3], r: [u128; 3]) -> (product: [u128; 3])
    requires
        accumulator_bounded(h),
        r_limbs_bounded(r),
    ensures
        accumulator_reduced(product),
        value_spec(product) % p_spec() == (value_spec(h) * value_spec(r)) % p_spec(),
{
    let (h0, h1, h2) = (h[0], h[1], h[2]);
    let (r0, r1, r2) = (r[0], r[1], r[2]);
    proof {
        lemma_mul_bounded(h0 as int, r0 as int, 0x2000_0000_0000, 0x1000_0000_0000);
        lemma_mul_bounded(h1 as int, r2 as int, 0x2000_0000_0800, 0x10_0000_0000);
        lemma_mul_bounded(h2 as int, r1 as int, 0x1000_0000_0000, 0x1000_0000_0000);
        lemma_mul_bounded(h0 as int, r1 as int, 0x2000_0000_0000, 0x1000_0000_0000);
        lemma_mul_bounded(h1 as int, r0 as int, 0x2000_0000_0800, 0x1000_0000_0000);
        lemma_mul_bounded(h2 as int, r2 as int, 0x1000_0000_0000, 0x10_0000_0000);
        lemma_mul_bounded(h0 as int, r2 as int, 0x2000_0000_0000, 0x10_0000_0000);
        lemma_mul_bounded(h1 as int, r1 as int, 0x2000_0000_0800, 0x1000_0000_0000);
        lemma_mul_bounded(h2 as int, r0 as int, 0x1000_0000_0000, 0x1000_0000_0000);
        lemma_product_fold(h0 as int, h1 as int, h2 as int, r0 as int, r1 as int, r2 as int);
    }
    let d0 = h0 * r0 + 20 * (h1 * r2) + 20 * (h2 * r1);
    let d1 = h0 * r1 + h1 * r0 + 20 * (h2 * r2);
    let d2 = h0 * r2 + h1 * r1 + h2 * r0;
    let ghost whole = value_spec(h) * value_spec(r);
    proof {
        lemma_mod_multiples_vanish(
            4 * (h1 * r2 + h2 * r1) + 4 * 0x1000_0000_0000 * (h2 * r2),
            limbs_value_spec(d0 as int, d1 as int, d2 as int),
            p_spec(),
        );
    }
    assert(limbs_value_spec(d0 as int, d1 as int, d2 as int) % p_spec() == whole % p_spec());

    let c0 = d0 / 0x1000_0000_0000;
    let e0 = d0 % 0x1000_0000_0000;
    let d1 = d1 + c0;
    let c1 = d1 / 0x1000_0000_0000;
    let e1 = d1 % 0x1000_0000_0000;
    let d2 = d2 + c1;
    let c2 = d2 / 0x400_0000_0000;
    let e2 = d2 % 0x400_0000_0000;
    let f0 = e0 + 5 * c2;
    let c3 = f0 / 0x1000_0000_0000;
    let g0 = f0 % 0x1000_0000_0000;
    let g1 = e1 + c3;
    let product = [g0, g1, e2];
    proof {
        let v = limbs_value_spec(d0 as int, (d1 - c0) as int, (d2 - c1) as int);
        assert(value_spec(product) == v - (c2 as int) * p_spec());
        lemma_mod_multiples_vanish(-(c2 as int), value_spec(product) + (c2 as int) * p_spec(), p_spec());
        assert(p_spec() * -(c2 as int) + (value_spec(product) + (c2 as int) * p_spec()) == value_spec(product)) by (nonlinear_arith);
    }
    product
}

/// `2^128`.
pub open spec fn two_128() -> int {
    0x1_0000_0000_0000_0000_0000_0000_0000_0000int
}

/// The clamped `r` bytes: the top four bits of bytes 3, 7, 11, and 15 and the bottom two bits
/// of bytes 4, 8, and 12 cleared.
pub open spec fn clamp_spec(r: Seq<u8>) -> Seq<u8> {
    Seq::new(
        16,
        |i: int|
            if i == 3 || i == 7 || i == 11 || i == 15 {
                r[i] & 15u8
            } else if i == 4 || i == 8 || i == 12 {
                r[i] & 252u8
            } else {
                r[i]
            },
    )
}

/// The value a message block contributes: its little-endian value with one more byte of value
/// one appended.
pub open spec fn block_term_spec(chunk: Seq<u8>) -> int {
    le_spec(chunk) + pow256_spec(chunk.len())
}

/// One accumulator step: add the block and multiply by `r`, modulo `p`.
pub open spec fn absorb_spec(r: int, accumulator: int, chunk: Seq<u8>) -> int {
    ((accumulator + block_term_spec(chunk)) * r) % p_spec()
}

/// The accumulator after absorbing `chunks` in order.
pub open spec fn fold_spec(r: int, accumulator: int, chunks: Seq<Seq<u8>>) -> int
    decreases chunks.len(),
{
    if chunks.len() == 0 {
        accumulator
    } else {
        absorb_spec(r, fold_spec(r, accumulator, chunks.drop_last()), chunks.last())
    }
}

/// The accumulator for a whole message: its sixteen-byte blocks, then the shorter tail if any.
pub open spec fn message_accumulator_spec(r: int, message: Seq<u8>) -> int {
    let full = fold_spec(r, 0, blocks_spec(message, 16));
    let tail = tail_spec(message, 16);
    if tail.len() == 0 {
        full
    } else {
        absorb_spec(r, full, tail)
    }
}

/// The clamped `r` of a one-time key.
pub open spec fn key_r_spec(key: Seq<u8>) -> int {
    le_spec(clamp_spec(key.subrange(0, 16)))
}

/// The `s` of a one-time key.
pub open spec fn key_s_spec(key: Seq<u8>) -> int {
    le_spec(key.subrange(16, 32))
}

/// The Poly1305 tag of `message` under the one-time `key`.
pub open spec fn poly1305_spec(key: Seq<u8>, message: Seq<u8>) -> Seq<u8> {
    le_bytes_spec((message_accumulator_spec(key_r_spec(key), message) + key_s_spec(key)) % two_128(), 16)
}

/// Folding a concatenation is folding the second part into the result of the first.
pub proof fn lemma_fold_concat(r: int, accumulator: int, first: Seq<Seq<u8>>, second: Seq<Seq<u8>>)
    ensures
        fold_spec(r, accumulator, first + second) == fold_spec(r, fold_spec(r, accumulator, first), second),
    decreases second.len(),
{
    if second.len() == 0 {
        assert(first + second =~= first);
    } else {
        assert((first + second).drop_last() =~= first + second.drop_last());
        assert((first + second).last() == second.last());
        lemma_fold_concat(r, accumulator, first, second.drop_last());
    }
}

/// Absorbing from a limb value congruent to the accumulator gives the same result.
proof fn lemma_absorb_congruent(r: int, value: int, accumulator: int, term: int)
    requires
        value % p_spec() == accumulator % p_spec(),
    ensures
        ((value + term) * r) % p_spec() == ((accumulator + term) * r) % p_spec(),
{
    lemma_add_mod_noop(value, term, p_spec());
    lemma_add_mod_noop(accumulator, term, p_spec());
    lemma_mul_mod_noop_left(value + term, r, p_spec());
    lemma_mul_mod_noop_left(accumulator + term, r, p_spec());
}

/// A one-time Poly1305 key: 16 bytes of `r` and 16 bytes of `s`.
pub struct Poly1305Key {
    bytes: SecretBytes<32>,
}

impl View for Poly1305Key {
    type V = Seq<u8>;

    open spec fn view(&self) -> Seq<u8> {
        self.spec_secret()@
    }
}

impl Poly1305Key {
    /// The owned key bytes.
    pub closed spec fn spec_secret(&self) -> SecretBytes<32> {
        self.bytes
    }

    /// Take ownership of the thirty-two one-time key bytes.
    pub fn new(bytes: [u8; 32]) -> (key: Self)
        ensures
            key@ == bytes@,
    {
        Self { bytes: SecretBytes::new(bytes) }
    }
}

/// A computed Poly1305 tag.
pub struct Poly1305Tag {
    bytes: [u8; 16],
}

impl View for Poly1305Tag {
    type V = Seq<u8>;

    open spec fn view(&self) -> Seq<u8> {
        self.spec_bytes()@
    }
}

impl Poly1305Tag {
    /// The tag bytes.
    pub closed spec fn spec_bytes(&self) -> [u8; 16] {
        self.bytes
    }

    /// Wrap sixteen tag bytes.
    pub fn new(bytes: [u8; 16]) -> (tag: Self)
        ensures
            tag@ == bytes@,
    {
        Self { bytes }
    }

    /// Borrow the tag bytes.
    pub fn as_bytes(&self) -> (bytes: &[u8; 16])
        ensures
            bytes@ == self@,
    {
        &self.bytes
    }

    /// Give up the tag bytes.
    pub fn into_bytes(self) -> (bytes: [u8; 16])
        ensures
            bytes@ == self@,
    {
        self.bytes
    }
}

/// Add one block's limbs to reduced limbs.
fn add_block_limbs(h: [u128; 3], block: &[u8; 16], high: u128) -> (sum: [u128; 3])
    requires
        accumulator_reduced(h),
        high <= 1,
    ensures
        accumulator_bounded(sum),
        value_spec(sum) == value_spec(h) + le_spec(block@) + high * two_128(),
{
    let t0 = load_le64(block, 0);
    let t1 = load_le64(block, 8);
    proof {
        lemma_le_concat(block@.subrange(0, 8), block@.subrange(8, 16));
        assert(block@.subrange(0, 8) + block@.subrange(8, 16) =~= block@);
        lemma_pow256_values();
    }
    let limbs = split_limbs(t0, t1, high);
    assert((t1 as int) / 0x100_0000 < 0x100_0000_0000);
    [h[0] + limbs[0], h[1] + limbs[1], h[2] + limbs[2]]
}

/// The 64-bit little-endian words of the clamped `r` as limbs.
fn clamp_r(key: &[u8; 32]) -> (r: [u128; 3])
    ensures
        r_limbs_bounded(r),
        value_spec(r) == key_r_spec(key@),
{
    let mut clamped = [0u8; 16];
    let mut index: usize = 0;
    while index < 16
        invariant
            index <= 16,
            forall|j: int| 0 <= j < index ==> clamped[j] == clamp_spec(key@.subrange(0, 16))[j],
        decreases 16 - index,
    {
        clamped[index] = if index == 3 || index == 7 || index == 11 || index == 15 {
            key[index] & 15
        } else if index == 4 || index == 8 || index == 12 {
            key[index] & 252
        } else {
            key[index]
        };
        index = index + 1;
    }
    assert(clamped@ =~= clamp_spec(key@.subrange(0, 16)));
    proof {
        lemma_mask_u8(key[15]);
        lemma_le_eight(clamped@.subrange(8, 16));
    }
    let t0 = load_le64(&clamped, 0);
    let t1 = load_le64(&clamped, 8);
    assert(t1 < 0x1000_0000_0000_0000);
    proof {
        lemma_le_concat(clamped@.subrange(0, 8), clamped@.subrange(8, 16));
        assert(clamped@.subrange(0, 8) + clamped@.subrange(8, 16) =~= clamped@);
        lemma_pow256_values();
    }
    split_limbs(t0, t1, 0)
}

/// The value of `s`, the second half of the key.
fn load_s(key: &[u8; 32]) -> (s: u128)
    ensures
        s == key_s_spec(key@),
{
    let mut upper = [0u8; 16];
    let mut index: usize = 0;
    while index < 16
        invariant
            index <= 16,
            forall|j: int| 0 <= j < index ==> upper[j] == key@[16 + j],
        decreases 16 - index,
    {
        upper[index] = key[16 + index];
        index = index + 1;
    }
    assert(upper@ =~= key@.subrange(16, 32));
    let t0 = load_le64(&upper, 0);
    let t1 = load_le64(&upper, 8);
    proof {
        lemma_le_concat(upper@.subrange(0, 8), upper@.subrange(8, 16));
        assert(upper@.subrange(0, 8) + upper@.subrange(8, 16) =~= upper@);
        lemma_pow256_values();
    }
    t0 as u128 + t1 as u128 * 0x1_0000_0000_0000_0000
}

/// Carry reduced limbs into canonical widths, keeping the value modulo `p` and below `2p`.
fn normalize(h: [u128; 3]) -> (normal: [u128; 3])
    requires
        accumulator_reduced(h),
    ensures
        normal[0] < 0x1000_0000_0000,
        normal[1] < 0x1000_0000_0000,
        normal[2] <= 0x400_0000_0000,
        value_spec(normal) < 2 * p_spec(),
        value_spec(normal) % p_spec() == value_spec(h) % p_spec(),
{
    let (mut h0, mut h1, mut h2) = (h[0], h[1], h[2]);
    let ghost initial = value_spec(h);
    let c = h1 / 0x1000_0000_0000;
    h1 = h1 % 0x1000_0000_0000;
    h2 = h2 + c;
    let c = h2 / 0x400_0000_0000;
    h2 = h2 % 0x400_0000_0000;
    h0 = h0 + 5 * c;
    let ghost carried = c as int;
    let c = h0 / 0x1000_0000_0000;
    h0 = h0 % 0x1000_0000_0000;
    h1 = h1 + c;
    let c = h1 / 0x1000_0000_0000;
    h1 = h1 % 0x1000_0000_0000;
    h2 = h2 + c;
    let normal = [h0, h1, h2];
    assert(value_spec(normal) == initial - carried * p_spec());
    proof {
        lemma_mod_multiples_vanish(-carried, initial, p_spec());
        assert(p_spec() * -carried + initial == value_spec(normal)) by (nonlinear_arith)
            requires value_spec(normal) == initial - carried * p_spec();
    }
    normal
}

/// Subtract `p` once if the value is at least `p`, without a branch on the value.
fn reduce_once(h: [u128; 3]) -> (reduced: [u128; 3])
    requires
        h[0] < 0x1000_0000_0000,
        h[1] < 0x1000_0000_0000,
        h[2] <= 0x400_0000_0000,
        value_spec(h) < 2 * p_spec(),
    ensures
        reduced[0] < 0x1000_0000_0000,
        reduced[1] < 0x1000_0000_0000,
        reduced[2] <= 0x400_0000_0000,
        value_spec(reduced) == value_spec(h) % p_spec(),
{
    let (h0, h1, h2) = (h[0], h[1], h[2]);
    let ghost v = value_spec(h);
    let g0 = h0 + 5;
    let c = g0 / 0x1000_0000_0000;
    let g0 = g0 % 0x1000_0000_0000;
    let g1 = h1 + c;
    let c = g1 / 0x1000_0000_0000;
    let g1 = g1 % 0x1000_0000_0000;
    let g2 = h2 + c;
    let select = g2 / 0x400_0000_0000;
    let g2 = g2 % 0x400_0000_0000;
    assert(limbs_value_spec(g0 as int, g1 as int, g2 as int) == v + 5 - (select as int) * 0x4_0000_0000_0000_0000_0000_0000_0000_0000int);
    assert(select <= 1);
    let keep = 1 - select;
    proof {
        lemma_mul_bounded(h0 as int, keep as int, 0x1000_0000_0000, 1);
        lemma_mul_bounded(g0 as int, select as int, 0x1000_0000_0000, 1);
        lemma_mul_bounded(h1 as int, keep as int, 0x1000_0000_0000, 1);
        lemma_mul_bounded(g1 as int, select as int, 0x1000_0000_0000, 1);
        lemma_mul_bounded(h2 as int, keep as int, 0x400_0000_0000, 1);
        lemma_mul_bounded(g2 as int, select as int, 0x400_0000_0000, 1);
    }
    let f0 = h0 * keep + g0 * select;
    let f1 = h1 * keep + g1 * select;
    let f2 = h2 * keep + g2 * select;
    let reduced = [f0, f1, f2];
    proof {
        if select == 1 {
            assert(keep == 0);
            assert(f0 == g0 && f1 == g1 && f2 == g2);
            assert(value_spec(reduced) == v - p_spec());
            lemma_mod_multiples_vanish(-1, v, p_spec());
            assert(p_spec() * -1 + v == value_spec(reduced));
            vstd::arithmetic::div_mod::lemma_small_mod(value_spec(reduced) as nat, p_spec() as nat);
        } else {
            assert(keep == 1 && select == 0);
            assert(f0 == h0 && f1 == h1 && f2 == h2);
            assert(value_spec(reduced) == v);
            vstd::arithmetic::div_mod::lemma_small_mod(v as nat, p_spec() as nat);
        }
    }
    reduced
}

/// `(value(h) mod p + s) mod 2^128` from reduced limbs.
fn finish_value(h: [u128; 3], s: u128) -> (tag: u128)
    requires
        accumulator_reduced(h),
    ensures
        tag == ((value_spec(h) % p_spec()) + s) % two_128(),
{
    let normal = normalize(h);
    let reduced = reduce_once(normal);
    let (f0, f1, f2) = (reduced[0], reduced[1], reduced[2]);
    let low = f0 + f1 * 0x1000_0000_0000 + (f2 % 0x100_0000_0000) * 0x100_0000_0000_0000_0000_0000;
    proof {
        let value = value_spec(reduced);
        assert(f2 == f2 % 0x100_0000_0000 + (f2 / 0x100_0000_0000) * 0x100_0000_0000);
        assert(value == low + (f2 / 0x100_0000_0000) * two_128());
        lemma_mod_multiples_vanish((f2 / 0x100_0000_0000) as int, low as int, two_128());
        assert(two_128() * ((f2 / 0x100_0000_0000) as int) + low == value);
        lemma_add_mod_noop(value, s as int, two_128());
        lemma_add_mod_noop(low as int, s as int, two_128());
    }
    low.wrapping_add(s)
}

/// The sixteen-byte little-endian encoding of a 128-bit value.
fn le_bytes16(value: u128) -> (bytes: [u8; 16])
    ensures
        bytes@ == le_bytes_spec(value as int, 16),
{
    let mut bytes = [0u8; 16];
    let mut remaining = value;
    let mut index: usize = 0;
    while index < 16
        invariant
            index <= 16,
            remaining == (value as int) / pow256_spec(index as nat),
            forall|j: int| 0 <= j < index ==> bytes[j] == le_bytes_spec(value as int, 16)[j],
        decreases 16 - index,
    {
        proof {
            lemma_pow256_positive(index as nat);
            vstd::arithmetic::div_mod::lemma_div_denominator(value as int, pow256_spec(index as nat), 256);
            assert(pow256_spec((index + 1) as nat) == pow256_spec(index as nat) * 256);
        }
        bytes[index] = (remaining % 256) as u8;
        remaining = remaining / 256;
        index = index + 1;
    }
    assert(bytes@ =~= le_bytes_spec(value as int, 16));
    bytes
}

/// A Poly1305 computation in progress: complete blocks are absorbed as they arrive, and the
/// incomplete tail waits in a block buffer.
pub struct Poly1305 {
    r: [u128; 3],
    s: u128,
    h: [u128; 3],
    buffer: BlockBuffer<16>,
    key: Ghost<Seq<u8>>,
    message: Ghost<Seq<u8>>,
}

impl Poly1305 {
    /// The one-time key.
    pub closed spec fn spec_key(&self) -> Seq<u8> {
        self.key@
    }

    /// Every byte absorbed so far.
    pub closed spec fn spec_message(&self) -> Seq<u8> {
        self.message@
    }

    /// The limbs, buffer, and key agree with the bytes absorbed so far.
    pub closed spec fn wf(&self) -> bool {
        &&& self.key@.len() == 32
        &&& r_limbs_bounded(self.r)
        &&& value_spec(self.r) == key_r_spec(self.key@)
        &&& self.s == key_s_spec(self.key@)
        &&& accumulator_reduced(self.h)
        &&& value_spec(self.h) % p_spec() == fold_spec(key_r_spec(self.key@), 0, blocks_spec(self.message@, 16)) % p_spec()
        &&& self.buffer.wf()
        &&& self.buffer@ == tail_spec(self.message@, 16)
    }

    /// Start authenticating under a one-time key.
    pub fn new(key: Poly1305Key) -> (mac: Self)
        ensures
            mac.wf(),
            mac.spec_key() == key@,
            mac.spec_message() == Seq::<u8>::empty(),
    {
        let bytes = key.bytes.expose_secret();
        let r = clamp_r(bytes);
        let s = load_s(bytes);
        let mac = Self {
            r,
            s,
            h: [0, 0, 0],
            buffer: BlockBuffer::new(),
            key: Ghost(key@),
            message: Ghost(Seq::empty()),
        };
        proof {
            assert(blocks_spec(Seq::<u8>::empty(), 16).len() == 0);
            assert(tail_spec(Seq::<u8>::empty(), 16) =~= Seq::<u8>::empty());
        }
        mac
    }

    /// Absorb one complete block, or the padded final block when `high` is zero.
    fn absorb(&mut self, block: &[u8; 16], high: u128)
        requires
            accumulator_reduced(old(self).h),
            r_limbs_bounded(old(self).r),
            high <= 1,
        ensures
            accumulator_reduced(final(self).h),
            value_spec(final(self).h) % p_spec()
                == ((value_spec(old(self).h) + le_spec(block@) + high * two_128()) * value_spec(old(self).r)) % p_spec(),
            final(self).r == old(self).r,
            final(self).s == old(self).s,
            final(self).buffer == old(self).buffer,
            final(self).key == old(self).key,
            final(self).message == old(self).message,
    {
        let sum = add_block_limbs(self.h, block, high);
        self.h = multiply_reduce(sum, self.r);
    }

    /// Absorb more message bytes.
    pub fn update(&mut self, data: &[u8])
        requires
            old(self).wf(),
        ensures
            final(self).wf(),
            final(self).spec_key() == old(self).spec_key(),
            final(self).spec_message() == old(self).spec_message() + data@,
    {
        let ghost r = key_r_spec(self.key@);
        let ghost before = self.message@;
        let ghost old_blocks = blocks_spec(before, 16);
        let blocks = self.buffer.push(data);
        let ghost new_blocks = blocks_spec(tail_spec(before, 16) + data@, 16);
        proof {
            lemma_fragmentation_preserves_blocks(Seq::empty(), before, data@, 16);
            assert(Seq::<u8>::empty() + before =~= before);
            assert(Seq::<u8>::empty() + before + data@ =~= before + data@);
        }
        let mut index: usize = 0;
        while index < blocks.len()
            invariant
                index <= blocks@.len(),
                blocks@.len() == new_blocks.len(),
                forall|k: int| 0 <= k < blocks@.len() ==> #[trigger] blocks@[k]@ == new_blocks[k],
                r == key_r_spec(self.key@),
                r_limbs_bounded(self.r),
                value_spec(self.r) == r,
                accumulator_reduced(self.h),
                value_spec(self.h) % p_spec() == fold_spec(r, 0, old_blocks + new_blocks.take(index as int)) % p_spec(),
                self.message@ == before,
                self.key == old(self).key,
                self.key@.len() == 32,
                self.s == key_s_spec(self.key@),
                self.buffer.wf(),
                self.buffer@ == tail_spec(before + data@, 16),
            decreases blocks@.len() - index,
        {
            let block = &blocks[index];
            let ghost previous = fold_spec(r, 0, old_blocks + new_blocks.take(index as int));
            let ghost hv = value_spec(self.h);
            self.absorb(block, 1);
            proof {
                assert(new_blocks[index as int].len() == 16);
                lemma_pow256_values();
                assert(block_term_spec(new_blocks[index as int]) == le_spec(block@) + two_128());
                assert((old_blocks + new_blocks.take(index + 1)).drop_last() =~= old_blocks + new_blocks.take(index as int));
                assert((old_blocks + new_blocks.take(index + 1)).last() == new_blocks[index as int]);
                lemma_absorb_congruent(r, hv, previous, block_term_spec(new_blocks[index as int]));
                assert(((hv + le_spec(block@) + two_128()) * r) == ((hv + block_term_spec(new_blocks[index as int])) * r));
                assert(fold_spec(r, 0, old_blocks + new_blocks.take(index + 1))
                    == absorb_spec(r, previous, new_blocks[index as int]));
                vstd::arithmetic::div_mod::lemma_mod_twice((previous + block_term_spec(new_blocks[index as int])) * r, p_spec());
            }
            index = index + 1;
        }
        assert(new_blocks.take(new_blocks.len() as int) =~= new_blocks);
        self.message = Ghost(before + data@);
    }

    /// The tag of everything absorbed.
    fn compute_tag(&self) -> (tag: [u8; 16])
        requires
            self.wf(),
        ensures
            tag@ == poly1305_spec(self.spec_key(), self.spec_message()),
    {
        let ghost r = key_r_spec(self.key@);
        let ghost message = self.message@;
        let ghost full = fold_spec(r, 0, blocks_spec(message, 16));
        let mut h = self.h;
        if !self.buffer.is_empty() {
            let tail = self.buffer.remainder();
            let mut padded = [0u8; 16];
            let mut index: usize = 0;
            while index < tail.len()
                invariant
                    tail@.len() < 16,
                    index <= tail@.len(),
                    forall|j: int| 0 <= j < index ==> padded[j] == tail@[j],
                    forall|j: int| tail@.len() <= j < 16 ==> padded[j] == 0,
                decreases tail@.len() - index,
            {
                padded[index] = tail[index];
                index = index + 1;
            }
            padded[tail.len()] = 1;
            proof {
                let length = tail@.len();
                let zeros = Seq::new((15 - length) as nat, |i: int| 0u8);
                assert(padded@ =~= tail@ + seq![1u8] + zeros);
                lemma_le_concat(tail@ + seq![1u8], zeros);
                lemma_le_concat(tail@, seq![1u8]);
                lemma_le_zeros((15 - length) as nat);
                reveal_with_fuel(le_spec, 2);
                assert(le_spec(seq![1u8]) == 1);
                assert(le_spec(zeros) == 0);
                assert(pow256_spec(length) * 1 == pow256_spec(length));
                assert(le_spec(tail@ + seq![1u8]) == le_spec(tail@) + pow256_spec(length));
                assert(le_spec(padded@) == le_spec(tail@ + seq![1u8]) + pow256_spec((tail@ + seq![1u8]).len()) * 0);
                assert(le_spec(padded@) == block_term_spec(tail@));
            }
            let ghost hv = value_spec(h);
            let sum = add_block_limbs(h, &padded, 0);
            h = multiply_reduce(sum, self.r);
            proof {
                lemma_absorb_congruent(r, hv, full, block_term_spec(tail@));
            }
            wipe_array(&mut padded);
        }
        proof {
            if tail_spec(message, 16).len() != 0 {
                vstd::arithmetic::div_mod::lemma_mod_twice((full + block_term_spec(tail_spec(message, 16))) * r, p_spec());
            } else {
                assert(value_spec(h) % p_spec() == full % p_spec());
            }
            assert(value_spec(h) % p_spec() == message_accumulator_spec(r, message) % p_spec());
            lemma_accumulator_reduced_value(r, message);
        }
        let tag = finish_value(h, self.s);
        le_bytes16(tag)
    }

    /// Finish and return the tag of everything absorbed.
    pub fn finalize(self) -> (tag: Poly1305Tag)
        requires
            self.wf(),
        ensures
            tag@ == poly1305_spec(self.spec_key(), self.spec_message()),
    {
        Poly1305Tag { bytes: self.compute_tag() }
    }

    /// Compare the tag of everything absorbed with `expected` without an early exit.
    pub fn verify(self, expected: &[u8; 16]) -> (result: CryptoResult<()>)
        requires
            self.wf(),
        ensures
            poly1305_spec(self.spec_key(), self.spec_message()) == expected@ ==> result is Ok,
            poly1305_spec(self.spec_key(), self.spec_message()) != expected@
                ==> result == Err::<(), CryptoError>(CryptoError::AuthenticationFailed),
    {
        let computed = self.compute_tag();
        let mut difference = 0u8;
        let mut index: usize = 0;
        while index < 16
            invariant
                index <= 16,
                (difference == 0) == (forall|j: int| 0 <= j < index ==> computed[j] == expected[j]),
            decreases 16 - index,
        {
            proof {
                lemma_or_difference(difference, computed[index as int], expected[index as int]);
            }
            difference = difference | (computed[index] ^ expected[index]);
            index = index + 1;
        }
        if difference == 0 {
            assert(computed@ =~= expected@);
            Ok(())
        } else {
            Err(CryptoError::AuthenticationFailed)
        }
    }
}

/// The message accumulator is already reduced modulo `p`.
proof fn lemma_accumulator_reduced_value(r: int, message: Seq<u8>)
    ensures
        0 <= message_accumulator_spec(r, message) < p_spec(),
{
    let chunks = blocks_spec(message, 16);
    if chunks.len() > 0 {
        assert(fold_spec(r, 0, chunks) == absorb_spec(r, fold_spec(r, 0, chunks.drop_last()), chunks.last()));
    }
}

} // verus!
