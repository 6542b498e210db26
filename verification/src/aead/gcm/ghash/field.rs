//! Multiplication in GCM's binary field `GF(2^128)` (NIST SP 800-38D §6.3, Algorithm 1).
//!
//! A block is a field element written with its first displayed bit, the most significant bit of
//! byte zero, as the coefficient of `x^0`. The product `X • Y` starts from `Z = 0` and `V = Y`;
//! for each displayed bit `x_i` of `X`, `V` is added to `Z` when `x_i` is one, and `V` is then
//! multiplied by `x`: shifted one bit to the right, adding `R = 11100001 || 0^120` when the
//! discarded bit was one.

use vstd::prelude::*;

use crate::bits::{lemma_mask_u8, lemma_xor_u8};
use crate::wipe::wipe_array;

verus! {

/// Bytes in a GCM block.
pub const BLOCK_BYTES: usize = 16;

/// Bits in a GCM block.
pub const BLOCK_BITS: usize = 128;

/// The first byte of `R`; its other fifteen bytes are zero.
pub const REDUCTION_FIRST_BYTE: u8 = 0xe1;

/// The all-zero block.
pub open spec fn zero_block_spec() -> Seq<u8> {
    Seq::new(16, |j: int| 0u8)
}

/// Bytewise XOR of two blocks: field addition.
pub open spec fn xor_block_spec(a: Seq<u8>, b: Seq<u8>) -> Seq<u8> {
    Seq::new(16, |j: int| a[j] ^ b[j])
}

/// Displayed bit `i` of a block: bits are read left to right, most significant first.
pub open spec fn displayed_bit_spec(block: Seq<u8>, i: int) -> u8 {
    (block[i / 8] >> ((7 - i % 8) as u8)) & 1u8
}

/// `V • x`: shift right by one displayed bit and add `R` if the discarded bit was one.
pub open spec fn advance_spec(v: Seq<u8>) -> Seq<u8> {
    Seq::new(
        16,
        |j: int|
            {
                let shifted = (v[j] >> 1u8) | (if j == 0 { 0u8 } else { (v[j - 1] & 1u8) << 7u8 });
                if j == 0 && v[15] & 1u8 == 1u8 {
                    shifted ^ REDUCTION_FIRST_BYTE
                } else {
                    shifted
                }
            },
    )
}

/// `(Z_n, V_n)` of Algorithm 1 after the first `n` bits of `x`.
pub open spec fn product_state_spec(x: Seq<u8>, y: Seq<u8>, n: nat) -> (Seq<u8>, Seq<u8>)
    decreases n,
{
    if n == 0 {
        (zero_block_spec(), y)
    } else {
        let (z, v) = product_state_spec(x, y, (n - 1) as nat);
        let z_next = if displayed_bit_spec(x, n - 1) == 1 { xor_block_spec(z, v) } else { z };
        (z_next, advance_spec(v))
    }
}

/// The product `X • Y` in `GF(2^128)`.
#[verifier::opaque]
pub open spec fn gf128_mul_spec(x: Seq<u8>, y: Seq<u8>) -> Seq<u8> {
    product_state_spec(x, y, 128).0
}

/// The multiplicative identity `0x80 || 0^120`: its first displayed bit is the coefficient of
/// `x^0`.
pub open spec fn identity_block_spec() -> Seq<u8> {
    Seq::new(16, |j: int| if j == 0 { 0x80u8 } else { 0u8 })
}

/// The bits of the bytes zero and `0x80`.
proof fn lemma_constant_byte_bits(shift: u8)
    by (bit_vector)
    requires
        shift < 8,
    ensures
        (0u8 >> shift) & 1u8 == 0u8,
        shift < 7 ==> (0x80u8 >> shift) & 1u8 == 0u8,
        (0x80u8 >> 7u8) & 1u8 == 1u8,
        0x80u8 >> 0u8 == 0x80u8,
        0xffu8 << 0u8 == 0xffu8,
        (0u8 >> 1u8) | 0x80u8 == 0x80u8,
        0u8 << 7u8 == 0u8,
        (0u8 & 1u8) << 7u8 == 0u8,
        0u8 >> 1u8 == 0u8,
        (0u8 >> 1u8) | 0u8 == 0u8,
        (0u8 >> 1u8) | ((0u8 & 1u8) << 7u8) == 0u8,
        0u8 & 1u8 == 0u8,
{
}

/// With a zero left operand nothing is ever added to the accumulator.
proof fn lemma_zero_left_state(y: Seq<u8>, n: nat)
    requires
        n <= 128,
    ensures
        product_state_spec(zero_block_spec(), y, n).0 == zero_block_spec(),
    decreases n,
{
    if n > 0 {
        lemma_zero_left_state(y, (n - 1) as nat);
        lemma_constant_byte_bits((7 - (n - 1) % 8) as u8);
    }
}

/// With a zero right operand the changing multiple stays zero, so the sums stay zero.
proof fn lemma_zero_right_state(x: Seq<u8>, n: nat)
    requires
        n <= 128,
    ensures
        product_state_spec(x, zero_block_spec(), n) == (zero_block_spec(), zero_block_spec()),
    decreases n,
{
    if n > 0 {
        lemma_zero_right_state(x, (n - 1) as nat);
        lemma_constant_byte_bits(0);
        lemma_xor_u8(0u8, 0u8, 0u8);
        assert(advance_spec(zero_block_spec()) =~= zero_block_spec());
        assert(xor_block_spec(zero_block_spec(), zero_block_spec()) =~= zero_block_spec());
    }
}

/// With the identity on the left, the first bit adds `Y` and no later bit adds anything.
proof fn lemma_identity_left_state(y: Seq<u8>, n: nat)
    requires
        y.len() == 16,
        1 <= n <= 128,
    ensures
        product_state_spec(identity_block_spec(), y, n).0 == y,
    decreases n,
{
    let shift = (7 - (n - 1) % 8) as u8;
    lemma_constant_byte_bits(shift);
    if n == 1 {
        assert(displayed_bit_spec(identity_block_spec(), 0) == 1u8);
        assert forall|j: int| 0 <= j < 16 implies xor_block_spec(zero_block_spec(), y)[j] == y[j] by {
            lemma_xor_u8(y[j], 0u8, 0u8);
        }
        assert(xor_block_spec(zero_block_spec(), y) =~= y);
    } else {
        lemma_identity_left_state(y, (n - 1) as nat);
        if (n - 1) / 8 == 0 {
            assert(shift < 7);
        }
        assert(displayed_bit_spec(identity_block_spec(), n - 1) == 0u8);
    }
}

/// Zero times any block is zero.
pub proof fn lemma_zero_times(y: Seq<u8>)
    ensures
        gf128_mul_spec(zero_block_spec(), y) == zero_block_spec(),
{
    reveal(gf128_mul_spec);
    lemma_zero_left_state(y, 128);
}

/// Any block times zero is zero.
pub proof fn lemma_times_zero(x: Seq<u8>)
    ensures
        gf128_mul_spec(x, zero_block_spec()) == zero_block_spec(),
{
    reveal(gf128_mul_spec);
    lemma_zero_right_state(x, 128);
}

/// The identity times any block is that block.
pub proof fn lemma_identity_times(y: Seq<u8>)
    requires
        y.len() == 16,
    ensures
        gf128_mul_spec(identity_block_spec(), y) == y,
{
    reveal(gf128_mul_spec);
    lemma_identity_left_state(y, 128);
}

/// The mask that keeps the first `k` displayed bits of a byte.
pub open spec fn leading_mask(k: int) -> u8 {
    if k <= 0 {
        0u8
    } else if k >= 8 {
        0xffu8
    } else {
        0xffu8 << ((8 - k) as u8)
    }
}

/// `x` with only its first `n` displayed bits kept.
pub open spec fn leading_bits(x: Seq<u8>, n: int) -> Seq<u8> {
    Seq::new(16, |j: int| x[j] & leading_mask(n - 8 * j))
}

/// The block whose only set displayed bit is bit `n`: the power `x^n`.
pub open spec fn unit_block(n: int) -> Seq<u8> {
    Seq::new(16, |j: int| if j == n / 8 { 0x80u8 >> ((n % 8) as u8) } else { 0u8 })
}

/// Keeping one more leading bit adds that bit, and shifting a single set bit moves it on.
proof fn lemma_leading_byte(x: u8, k: u8)
    by (bit_vector)
    requires
        k < 8,
    ensures
        (x >> ((7 - k) as u8)) & 1u8 == 1u8 ==> x & (0xffu8 << ((7 - k) as u8)) == (x & (if k == 0 { 0u8 } else { 0xffu8 << ((8 - k) as u8) })) ^ (0x80u8 >> k),
        (x >> ((7 - k) as u8)) & 1u8 != 1u8 ==> x & (0xffu8 << ((7 - k) as u8)) == x & (if k == 0 { 0u8 } else { 0xffu8 << ((8 - k) as u8) }),
        k < 7 ==> (0x80u8 >> k) >> 1u8 == 0x80u8 >> ((k + 1) as u8),
        k < 7 ==> (0x80u8 >> k) & 1u8 == 0u8,
        k == 7 ==> (0x80u8 >> k) >> 1u8 == 0u8,
        k == 7 ==> ((0x80u8 >> k) & 1u8) << 7u8 == 0x80u8,
        x & 0u8 == 0u8,
{
}

/// Multiplying by the identity: after `n` bits the accumulator holds the first `n` bits of `x`
/// and the changing multiple is `x^n`.
proof fn lemma_identity_right_state(x: Seq<u8>, n: nat)
    requires
        x.len() == 16,
        n <= 127,
    ensures
        product_state_spec(x, identity_block_spec(), n) == (leading_bits(x, n as int), unit_block(n as int)),
    decreases n,
{
    if n == 0 {
        lemma_constant_byte_bits(0);
        assert forall|j: int| 0 <= j < 16 implies leading_bits(x, 0)[j] == zero_block_spec()[j] by {
            lemma_leading_byte(x[j], 0);
        }
        assert(leading_bits(x, 0) =~= zero_block_spec());
        assert(unit_block(0) =~= identity_block_spec());
    } else {
        let m = (n - 1) as nat;
        lemma_identity_right_state(x, m);
        lemma_leading_step(x, m as int);
        lemma_unit_advance(m as int);
    }
}

/// The accumulator step of the identity product.
proof fn lemma_leading_step(x: Seq<u8>, m: int)
    requires
        x.len() == 16,
        0 <= m < 128,
    ensures
        (if displayed_bit_spec(x, m) == 1 { xor_block_spec(leading_bits(x, m), unit_block(m)) } else { leading_bits(x, m) })
            == leading_bits(x, m + 1),
{
    let k = (m % 8) as u8;
    let next = if displayed_bit_spec(x, m) == 1 { xor_block_spec(leading_bits(x, m), unit_block(m)) } else { leading_bits(x, m) };
    assert forall|j: int| 0 <= j < 16 implies next[j] == leading_bits(x, m + 1)[j] by {
        lemma_xor_u8(x[j] & leading_mask(m - 8 * j), 0u8, 0u8);
        if j == m / 8 {
            lemma_leading_byte(x[j], k);
            assert(m - 8 * j == k);
            assert(leading_mask(m - 8 * j) == (if k == 0 { 0u8 } else { 0xffu8 << ((8 - k) as u8) }));
            if k == 7 {
                lemma_constant_byte_bits(0);
                assert(leading_mask(m + 1 - 8 * j) == 0xffu8);
            } else {
                assert(m + 1 - 8 * j == k + 1);
                assert(leading_mask(m + 1 - 8 * j) == 0xffu8 << ((7 - k) as u8));
            }
            assert(displayed_bit_spec(x, m) == (x[j] >> ((7 - k) as u8)) & 1u8);
            assert(unit_block(m)[j] == 0x80u8 >> k);
        } else if j < m / 8 {
            lemma_mask_u8(x[j]);
        } else {
            lemma_leading_byte(x[j], 0);
        }
    }
    assert(next =~= leading_bits(x, m + 1));
}

/// `x^m • x = x^(m + 1)` while the set bit has not reached the end of the block.
proof fn lemma_unit_advance(m: int)
    requires
        0 <= m < 127,
    ensures
        advance_spec(unit_block(m)) == unit_block(m + 1),
{
    let k = (m % 8) as u8;
    let u = unit_block(m);
    lemma_leading_byte(0u8, k);
    lemma_constant_byte_bits(0);
    assert(u[15] & 1u8 == 0u8) by {
        if m / 8 == 15 {
            assert(k < 7);
        }
    }
    let q = m / 8;
    assert forall|j: int| 0 <= j < 16 implies advance_spec(u)[j] == unit_block(m + 1)[j] by {
        let carry = if j == 0 { 0u8 } else { (u[j - 1] & 1u8) << 7u8 };
        assert(advance_spec(u)[j] == (u[j] >> 1u8) | carry);
        if k < 7 {
            assert((m + 1) / 8 == q && (m + 1) % 8 == k + 1);
            if j == q {
                assert(u[j] == 0x80u8 >> k);
                assert(carry == 0u8);
                lemma_mask_u8((0x80u8 >> k) >> 1u8);
            } else if j == q + 1 {
                assert(u[j - 1] == 0x80u8 >> k);
                assert(carry == 0u8);
            } else {
                assert(carry == 0u8);
            }
        } else {
            assert((m + 1) / 8 == q + 1 && (m + 1) % 8 == 0);
            if j == q {
                assert(u[j] == 0x80u8 >> k);
                assert(carry == 0u8);
            } else if j == q + 1 {
                assert(u[j - 1] == 0x80u8 >> k);
                assert(carry == 0x80u8);
            } else {
                assert(carry == 0u8);
            }
        }
    }
    assert(advance_spec(u) =~= unit_block(m + 1));
}

/// Any block times the identity is that block.
pub proof fn lemma_times_identity(x: Seq<u8>)
    requires
        x.len() == 16,
    ensures
        gf128_mul_spec(x, identity_block_spec()) == x,
{
    reveal(gf128_mul_spec);
    lemma_identity_right_state(x, 127);
    lemma_leading_step(x, 127);
    assert forall|j: int| 0 <= j < 16 implies leading_bits(x, 128)[j] == x[j] by {
        lemma_mask_u8(x[j]);
    }
    assert(leading_bits(x, 128) =~= x);
}

/// One `GF(2^128)` element held as a sixteen-byte block.
pub struct FieldElement {
    bytes: [u8; BLOCK_BYTES],
}

impl View for FieldElement {
    type V = Seq<u8>;

    open spec fn view(&self) -> Seq<u8> {
        self.spec_bytes()@
    }
}

impl FieldElement {
    /// The element's bytes.
    pub closed spec fn spec_bytes(&self) -> [u8; BLOCK_BYTES] {
        self.bytes
    }

    /// Copy a block into a field element.
    pub fn from_block(block: &[u8; BLOCK_BYTES]) -> (element: Self)
        ensures
            element@ == block@,
    {
        Self { bytes: *block }
    }

    /// Take ownership of a block as a field element.
    pub fn from_owned_block(block: [u8; BLOCK_BYTES]) -> (element: Self)
        ensures
            element@ == block@,
    {
        Self { bytes: block }
    }

    /// The additive identity.
    pub fn zero() -> (element: Self)
        ensures
            element@ == zero_block_spec(),
    {
        let element = Self { bytes: [0u8; BLOCK_BYTES] };
        assert(element@ =~= zero_block_spec());
        element
    }

    /// Add a block: bytewise XOR.
    pub fn add_block(&mut self, block: &[u8; BLOCK_BYTES])
        ensures
            final(self)@ == xor_block_spec(old(self)@, block@),
    {
        let mut index: usize = 0;
        while index < BLOCK_BYTES
            invariant
                index <= 16,
                forall|j: int| 0 <= j < index ==> self.bytes[j] == old(self)@[j] ^ block[j],
                forall|j: int| index <= j < 16 ==> self.bytes[j] == old(self)@[j],
            decreases 16 - index,
        {
            self.bytes[index] = self.bytes[index] ^ block[index];
            index = index + 1;
        }
        assert(self@ =~= xor_block_spec(old(self)@, block@));
    }

    /// Borrow the block.
    pub fn as_block(&self) -> (block: &[u8; BLOCK_BYTES])
        ensures
            block@ == self@,
    {
        &self.bytes
    }

    /// Give up the block.
    pub fn into_block(self) -> (block: [u8; BLOCK_BYTES])
        ensures
            block@ == self@,
    {
        self.bytes
    }
}

/// Displayed bit `bit_index` of a block.
pub fn displayed_bit(block: &[u8; BLOCK_BYTES], bit_index: usize) -> (bit: u8)
    requires
        bit_index < 128,
    ensures
        bit == displayed_bit_spec(block@, bit_index as int),
        bit <= 1,
{
    let byte_index = bit_index / 8;
    let shift = (7 - bit_index % 8) as u8;
    let bit = (block[byte_index] >> shift) & 1;
    proof {
        lemma_mask_u8(block[byte_index as int] >> shift);
    }
    bit
}

/// Multiply the changing multiple `V` by `x` in place.
pub fn advance_changing_multiple(block: &mut [u8; BLOCK_BYTES])
    ensures
        final(block)@ == advance_spec(old(block)@),
{
    let discarded_rightmost_bit = block[BLOCK_BYTES - 1] & 1;
    proof {
        lemma_mask_u8(block[15]);
    }
    let reduction_mask = 0u8.wrapping_sub(discarded_rightmost_bit);
    let mut carry_into_next_byte = 0u8;
    let mut index: usize = 0;
    while index < BLOCK_BYTES
        invariant
            index <= 16,
            forall|j: int| 0 <= j < index ==> block[j] == (old(block)@[j] >> 1u8) | (if j == 0 { 0u8 } else { (old(block)@[j - 1] & 1u8) << 7u8 }),
            forall|j: int| index <= j < 16 ==> block[j] == old(block)@[j],
            carry_into_next_byte == (if index == 0 { 0u8 } else { (old(block)@[index - 1] & 1u8) << 7u8 }),
        decreases 16 - index,
    {
        let next_carry = (block[index] & 1) << 7;
        block[index] = (block[index] >> 1) | carry_into_next_byte;
        carry_into_next_byte = next_carry;
        index = index + 1;
    }
    let ghost shifted0 = block[0];
    block[0] = block[0] ^ (REDUCTION_FIRST_BYTE & reduction_mask);
    proof {
        lemma_mask_u8(REDUCTION_FIRST_BYTE);
        lemma_xor_u8(shifted0, 0u8, 0u8);
    }
    assert(block@ =~= advance_spec(old(block)@));
}

/// `left • right` in `GF(2^128)` by Algorithm 1, with masks in place of branches on secret bits.
pub fn multiply(left: &FieldElement, right: &FieldElement) -> (product: FieldElement)
    ensures
        product@ == gf128_mul_spec(left@, right@),
{
    let mut accumulator = [0u8; BLOCK_BYTES];
    let mut changing_multiple = right.bytes;
    assert(accumulator@ =~= zero_block_spec());
    let mut bit_index: usize = 0;
    while bit_index < BLOCK_BITS
        invariant
            bit_index <= 128,
            (accumulator@, changing_multiple@) == product_state_spec(left@, right@, bit_index as nat),
        decreases 128 - bit_index,
    {
        let input_bit = displayed_bit(&left.bytes, bit_index);
        let addition_mask = 0u8.wrapping_sub(input_bit);
        let ghost z = accumulator@;
        let mut byte_index: usize = 0;
        while byte_index < BLOCK_BYTES
            invariant
                byte_index <= 16,
                input_bit <= 1,
                addition_mask == (if input_bit == 1 { 0xffu8 } else { 0u8 }),
                forall|j: int| 0 <= j < byte_index ==> accumulator[j] == (if input_bit == 1 { z[j] ^ changing_multiple[j] } else { z[j] }),
                forall|j: int| byte_index <= j < 16 ==> accumulator[j] == z[j],
            decreases 16 - byte_index,
        {
            proof {
                lemma_mask_u8(changing_multiple[byte_index as int]);
                lemma_xor_u8(z[byte_index as int], 0u8, 0u8);
            }
            accumulator[byte_index] = accumulator[byte_index] ^ (changing_multiple[byte_index] & addition_mask);
            byte_index = byte_index + 1;
        }
        proof {
            if input_bit == 1 {
                assert(accumulator@ =~= xor_block_spec(z, changing_multiple@));
            } else {
                assert(accumulator@ =~= z);
            }
        }
        advance_changing_multiple(&mut changing_multiple);
        bit_index = bit_index + 1;
    }
    wipe_array(&mut changing_multiple);
    proof {
        reveal(gf128_mul_spec);
    }
    FieldElement { bytes: accumulator }
}

} // verus!
