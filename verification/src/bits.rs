//! Shared byte encodings and bit-level facts.

use vstd::arithmetic::div_mod::{
    lemma_div_denominator, lemma_div_multiples_vanish_fancy, lemma_fundamental_div_mod, lemma_hoist_over_denominator,
    lemma_mod_multiples_vanish,
};
use vstd::arithmetic::power2::{lemma2_to64, lemma_pow2_adds, pow2};
use vstd::prelude::*;

verus! {

/// `256^n`.
pub open spec fn pow256_spec(n: nat) -> int
    decreases n,
{
    if n == 0 {
        1
    } else {
        256 * pow256_spec((n - 1) as nat)
    }
}

/// The little-endian value of a byte string.
pub open spec fn le_spec(bytes: Seq<u8>) -> int
    decreases bytes.len(),
{
    if bytes.len() == 0 {
        0
    } else {
        bytes[0] + 256 * le_spec(bytes.drop_first())
    }
}

/// The little-endian value of a concatenation.
pub proof fn lemma_le_concat(a: Seq<u8>, b: Seq<u8>)
    ensures
        le_spec(a + b) == le_spec(a) + pow256_spec(a.len()) * le_spec(b),
    decreases a.len(),
{
    if a.len() == 0 {
        assert(a + b =~= b);
        assert(pow256_spec(0) == 1);
    } else {
        let rest = a.drop_first();
        assert((a + b).drop_first() =~= rest + b);
        lemma_le_concat(rest, b);
        assert((a + b).len() > 0);
        assert((a + b)[0] == a[0]);
        let x = le_spec(rest);
        let y = pow256_spec(rest.len());
        let z = le_spec(b);
        assert(le_spec(rest + b) == x + y * z);
        assert(le_spec(a + b) == a[0] + 256 * le_spec(rest + b));
        assert(le_spec(a) == a[0] + 256 * x);
        assert(pow256_spec(a.len()) == 256 * y);
        assert(256 * (x + y * z) == 256 * x + (256 * y) * z) by (nonlinear_arith);
    }
}

/// Zero bytes have value zero.
pub proof fn lemma_le_zeros(n: nat)
    ensures
        le_spec(Seq::new(n, |i: int| 0u8)) == 0,
    decreases n,
{
    if n > 0 {
        assert(Seq::new(n, |i: int| 0u8).drop_first() =~= Seq::new((n - 1) as nat, |i: int| 0u8));
        lemma_le_zeros((n - 1) as nat);
    }
}

/// The value of eight bytes, written out.
pub proof fn lemma_le_eight(bytes: Seq<u8>)
    requires
        bytes.len() == 8,
    ensures
        le_spec(bytes) == bytes[0] + bytes[1] * 0x100 + bytes[2] * 0x1_0000 + bytes[3] * 0x100_0000
            + bytes[4] * 0x1_0000_0000 + bytes[5] * 0x100_0000_0000 + bytes[6] * 0x1_0000_0000_0000
            + bytes[7] * 0x100_0000_0000_0000,
{
    reveal_with_fuel(le_spec, 9);
    assert(bytes.drop_first().drop_first().drop_first().drop_first().drop_first().drop_first().drop_first().drop_first().len() == 0);
}

/// `256^16 = 2^128` and `256^8 = 2^64`.
pub proof fn lemma_pow256_values()
    ensures
        pow256_spec(8) == 0x1_0000_0000_0000_0000,
        pow256_spec(16) == 0x1_0000_0000_0000_0000_0000_0000_0000_0000int,
{
    reveal_with_fuel(pow256_spec, 17);
}

/// The `n`-byte little-endian encoding of `x`.
pub open spec fn le_bytes_spec(x: int, n: nat) -> Seq<u8> {
    Seq::new(n, |i: int| ((x / pow256_spec(i as nat)) % 256) as u8)
}

/// Powers of 256 are positive.
pub proof fn lemma_pow256_positive(n: nat)
    ensures
        pow256_spec(n) > 0,
    decreases n,
{
    if n > 0 {
        lemma_pow256_positive((n - 1) as nat);
    }
}

/// The little-endian value of bytes is nonnegative, and zero exactly when every byte is zero.
pub proof fn lemma_le_zero(bytes: Seq<u8>)
    ensures
        le_spec(bytes) >= 0,
        (le_spec(bytes) == 0) == (forall|i: int| 0 <= i < bytes.len() ==> bytes[i] == 0),
    decreases bytes.len(),
{
    if bytes.len() > 0 {
        let rest = bytes.drop_first();
        lemma_le_zero(rest);
        if le_spec(bytes) == 0 {
            assert forall|i: int| 0 <= i < bytes.len() implies bytes[i] == 0 by {
                if i > 0 {
                    assert(bytes[i] == rest[i - 1]);
                }
            }
        }
        if forall|i: int| 0 <= i < bytes.len() ==> bytes[i] == 0 {
            assert forall|i: int| 0 <= i < rest.len() implies rest[i] == 0 by {
                assert(rest[i] == bytes[i + 1]);
            }
        }
    }
}

/// Byte `i` of a little-endian string is its value's base-256 digit `i`.
pub proof fn lemma_le_digit(bytes: Seq<u8>, i: int)
    requires
        0 <= i < bytes.len(),
    ensures
        (le_spec(bytes) / pow256_spec(i as nat)) % 256 == bytes[i],
    decreases i,
{
    let rest = bytes.drop_first();
    lemma_le_zero(rest);
    let value = le_spec(bytes);
    assert(value == bytes[0] + 256 * le_spec(rest));
    if i == 0 {
        lemma_fundamental_div_mod(value, 256);
        lemma_div_multiples_vanish_fancy(le_spec(rest), bytes[0] as int, 256);
    } else {
        lemma_le_digit(rest, i - 1);
        lemma_pow256_positive((i - 1) as nat);
        lemma_div_multiples_vanish_fancy(le_spec(rest), bytes[0] as int, 256);
        lemma_div_denominator(value, 256, pow256_spec((i - 1) as nat));
        assert(rest[i - 1] == bytes[i]);
    }
}

/// Encoding the value of an `n`-byte string in `n` bytes gives the string back.
pub proof fn lemma_le_bytes_of_le(bytes: Seq<u8>)
    ensures
        le_bytes_spec(le_spec(bytes), bytes.len()) == bytes,
{
    assert forall|i: int| 0 <= i < bytes.len() implies le_bytes_spec(le_spec(bytes), bytes.len())[i] == bytes[i] by {
        lemma_le_digit(bytes, i);
    }
    assert(le_bytes_spec(le_spec(bytes), bytes.len()) =~= bytes);
}

/// `256^n = 2^(8n)`.
pub proof fn lemma_pow256_is_pow2(n: nat)
    ensures
        pow256_spec(n) == pow2(8 * n),
    decreases n,
{
    if n == 0 {
        lemma2_to64();
    } else {
        lemma_pow256_is_pow2((n - 1) as nat);
        lemma_pow2_adds(8, (8 * (n - 1)) as nat);
        lemma2_to64();
        assert(8 * n == 8 + 8 * (n - 1));
    }
}

/// Bit `r` of a byte, by shifting and by dividing.
proof fn lemma_byte_bit(byte: u8, r: u8)
    by (bit_vector)
    requires
        r < 8,
    ensures
        r == 0 ==> (byte >> r) & 1u8 == byte % 2,
        r == 1 ==> (byte >> r) & 1u8 == (byte / 2) % 2,
        r == 2 ==> (byte >> r) & 1u8 == (byte / 4) % 2,
        r == 3 ==> (byte >> r) & 1u8 == (byte / 8) % 2,
        r == 4 ==> (byte >> r) & 1u8 == (byte / 16) % 2,
        r == 5 ==> (byte >> r) & 1u8 == (byte / 32) % 2,
        r == 6 ==> (byte >> r) & 1u8 == (byte / 64) % 2,
        r == 7 ==> (byte >> r) & 1u8 == (byte / 128) % 2,
{
}

/// Bit `t` of a little-endian byte string, read from byte `t / 8`, is bit `t` of its value.
pub proof fn lemma_le_bit(bytes: Seq<u8>, t: int)
    requires
        0 <= t < 8 * bytes.len(),
    ensures
        (((bytes[t / 8] >> ((t % 8) as u8)) & 1u8) as int) == (le_spec(bytes) / (pow2(t as nat) as int)) % 2,
{
    let q: int = t / 8;
    let r: int = t % 8;
    let value: int = le_spec(bytes);
    lemma_le_zero(bytes);
    lemma_le_digit(bytes, q);
    lemma_pow256_is_pow2(q as nat);
    lemma_pow256_positive(q as nat);
    lemma_pow2_adds((8 * q) as nat, r as nat);
    lemma2_to64();
    assert(t == 8 * q + r);
    let shifted: int = value / pow256_spec(q as nat);
    lemma_div_denominator(value, pow256_spec(q as nat), pow2(r as nat) as int);
    assert(value / (pow2(t as nat) as int) == shifted / (pow2(r as nat) as int));
    let high: int = shifted / 256;
    let byte: int = shifted % 256;
    lemma_fundamental_div_mod(shifted, 256);
    assert(byte == bytes[q]);
    let unit: int = pow2(r as nat) as int;
    let step: int = if r == 0 { 256 } else if r == 1 { 128 } else if r == 2 { 64 } else if r == 3 { 32 } else if r == 4 {
        16
    } else if r == 5 { 8 } else if r == 6 { 4 } else { 2 };
    assert(unit > 0 && step * unit == 256 && step % 2 == 0 && step > 0) by {
        if r == 0 {
            assert(unit == 1);
            assert(step == 256);
        } else if r == 1 {
            assert(unit == 2);
            assert(step == 128);
        } else if r == 2 {
            assert(unit == 4);
            assert(step == 64);
        } else if r == 3 {
            assert(unit == 8);
            assert(step == 32);
        } else if r == 4 {
            assert(unit == 16);
            assert(step == 16);
        } else if r == 5 {
            assert(unit == 32);
            assert(step == 8);
        } else if r == 6 {
            assert(unit == 64);
            assert(step == 4);
        } else if r == 7 {
            assert(unit == 128);
            assert(step == 2);
        }
    }
    assert(shifted == (high * step) * unit + byte) by (nonlinear_arith)
        requires shifted == 256 * high + byte, step * unit == 256;
    lemma_hoist_over_denominator(byte, high * step, unit as nat);
    assert(shifted / unit == high * step + byte / unit);
    let half: int = step / 2;
    assert(high * step == 2 * (high * half)) by (nonlinear_arith)
        requires step == 2 * half;
    lemma_mod_multiples_vanish(high * half, byte / unit, 2);
    lemma_byte_bit(bytes[q], r as u8);
    assert((byte / unit) % 2 == ((bytes[q] >> (r as u8)) & 1u8)) by {
        if r == 0 {
        } else if r == 1 {
        } else if r == 2 {
        } else if r == 3 {
        } else if r == 4 {
        } else if r == 5 {
        } else if r == 6 {
        } else {
        }
    }
    lemma_byte_bit(bytes[q], r as u8);
}

/// The big-endian value of a byte string.
pub open spec fn be_spec(bytes: Seq<u8>) -> int {
    le_spec(bytes.reverse())
}

/// The big-endian value of a concatenation.
pub proof fn lemma_be_concat(a: Seq<u8>, b: Seq<u8>)
    ensures
        be_spec(a + b) == be_spec(a) * pow256_spec(b.len()) + be_spec(b),
{
    assert((a + b).reverse() =~= b.reverse() + a.reverse());
    lemma_le_concat(b.reverse(), a.reverse());
    let (x, y) = (pow256_spec(b.len()), be_spec(a));
    assert(x * y == y * x) by (nonlinear_arith);
}

/// The big-endian value of eight bytes, written out.
pub proof fn lemma_be_eight(bytes: Seq<u8>)
    requires
        bytes.len() == 8,
    ensures
        be_spec(bytes) == bytes[7] + bytes[6] * 0x100 + bytes[5] * 0x1_0000 + bytes[4] * 0x100_0000
            + bytes[3] * 0x1_0000_0000 + bytes[2] * 0x100_0000_0000 + bytes[1] * 0x1_0000_0000_0000
            + bytes[0] * 0x100_0000_0000_0000,
{
    lemma_le_eight(bytes.reverse());
}

/// The big-endian value of `bytes[at .. at + 8]`.
pub fn load_be64(bytes: &[u8], at: usize) -> (word: u64)
    requires
        at + 8 <= bytes@.len() <= usize::MAX,
    ensures
        word == be_spec(bytes@.subrange(at as int, at + 8)),
{
    proof {
        lemma_be_eight(bytes@.subrange(at as int, at + 8));
    }
    bytes[at + 7] as u64 + bytes[at + 6] as u64 * 0x100 + bytes[at + 5] as u64 * 0x1_0000 + bytes[at + 4] as u64 * 0x100_0000
        + bytes[at + 3] as u64 * 0x1_0000_0000 + bytes[at + 2] as u64 * 0x100_0000_0000
        + bytes[at + 1] as u64 * 0x1_0000_0000_0000 + bytes[at] as u64 * 0x100_0000_0000_0000
}

/// The eight big-endian bytes of a word.
pub fn be64_bytes(word: u64) -> (bytes: [u8; 8])
    ensures
        be_spec(bytes@) == word,
{
    let mut remaining = word;
    let b7 = (remaining % 256) as u8;
    remaining = remaining / 256;
    let b6 = (remaining % 256) as u8;
    remaining = remaining / 256;
    let b5 = (remaining % 256) as u8;
    remaining = remaining / 256;
    let b4 = (remaining % 256) as u8;
    remaining = remaining / 256;
    let b3 = (remaining % 256) as u8;
    remaining = remaining / 256;
    let b2 = (remaining % 256) as u8;
    remaining = remaining / 256;
    let b1 = (remaining % 256) as u8;
    remaining = remaining / 256;
    let b0 = remaining as u8;
    let bytes = [b0, b1, b2, b3, b4, b5, b6, b7];
    proof {
        lemma_be_eight(bytes@);
    }
    bytes
}

/// The eight-byte big-endian encoding of a 64-bit value.
pub open spec fn be64_spec(x: u64) -> Seq<u8> {
    seq![
        (x / 0x100_0000_0000_0000) as u8,
        ((x / 0x1_0000_0000_0000) % 0x100) as u8,
        ((x / 0x100_0000_0000) % 0x100) as u8,
        ((x / 0x1_0000_0000) % 0x100) as u8,
        ((x / 0x100_0000) % 0x100) as u8,
        ((x / 0x1_0000) % 0x100) as u8,
        ((x / 0x100) % 0x100) as u8,
        (x % 0x100) as u8,
    ]
}

/// Append the big-endian encoding of `value`.
pub fn push_be64(output: &mut Vec<u8>, value: u64)
    ensures
        final(output)@ == old(output)@ + be64_spec(value),
{
    output.push((value / 0x100_0000_0000_0000) as u8);
    output.push(((value / 0x1_0000_0000_0000) % 0x100) as u8);
    output.push(((value / 0x100_0000_0000) % 0x100) as u8);
    output.push(((value / 0x1_0000_0000) % 0x100) as u8);
    output.push(((value / 0x100_0000) % 0x100) as u8);
    output.push(((value / 0x1_0000) % 0x100) as u8);
    output.push(((value / 0x100) % 0x100) as u8);
    output.push((value % 0x100) as u8);
    assert(output@ =~= old(output)@ + be64_spec(value));
}

/// XOR on bytes is an involutive, commutative, associative operation with identity zero.
pub proof fn lemma_xor_u8(a: u8, b: u8, c: u8)
    by (bit_vector)
    ensures
        (a ^ b) ^ b == a,
        a ^ 0u8 == a,
        0u8 ^ a == a,
        a ^ a == 0u8,
        a ^ b == b ^ a,
        (a ^ b) ^ c == a ^ (b ^ c),
{
}

/// Masking a byte with all ones keeps it, with zero clears it, and its low bit is 0 or 1.
pub proof fn lemma_mask_u8(c: u8)
    by (bit_vector)
    ensures
        c & 0xffu8 == c,
        c & 0u8 == 0u8,
        c & 1u8 <= 1u8,
        c & 15u8 <= 15u8,
        c | 0u8 == c,
{
}

/// An accumulated difference stays zero exactly while every compared pair of bytes is equal.
pub proof fn lemma_or_difference(difference: u8, a: u8, b: u8)
    by (bit_vector)
    ensures
        (difference | (a ^ b) == 0u8) == (difference == 0u8 && a == b),
{
}

} // verus!
