//! The X25519 Montgomery ladder (RFC 7748 §5), over residues modulo `p`.
//!
//! The specification below is the RFC's ladder on integers: start from `(1, 0)` and `(u, 1)`,
//! take scalar bits 254 down to 0, conditionally swap the two points on the XOR of consecutive
//! bits, apply the named steps `A, AA, B, BB, E, C, D, DA, CB`, swap once more at the end, and
//! return `x_2 * z_2^(p - 2)`. The executable ladder performs the same field operations in the
//! same order, and its state is proved equal to the specification after every bit.

use vstd::arithmetic::power::pow;
use vstd::prelude::*;

use super::field::{FieldElement, field_add, field_mul, field_sub, p25519};
use super::scalar::{PreparedScalar, prepared_scalar_spec, scalar_bit_spec};
use crate::bits::le_spec;

verus! {

/// `a24 = (486662 - 2) / 4`.
pub const A24: u64 = 121_665;

/// The ladder's two projective points and the pending swap.
pub struct LadderState {
    pub x_2: int,
    pub z_2: int,
    pub x_3: int,
    pub z_3: int,
    pub swap: int,
}

/// The state before any bit: `(1, 0)`, `(u, 1)`, no pending swap.
pub open spec fn ladder_start(x_1: int) -> LadderState {
    LadderState { x_2: 1, z_2: 0, x_3: x_1, z_3: 1, swap: 0 }
}

/// The state with its points exchanged when `swap` is one.
pub open spec fn swapped(state: LadderState, swap: int) -> LadderState {
    if swap == 1 {
        LadderState { x_2: state.x_3, z_2: state.z_3, x_3: state.x_2, z_3: state.z_2, swap: state.swap }
    } else {
        state
    }
}

/// One ladder step for scalar bit `bit`.
pub open spec fn ladder_step(state: LadderState, x_1: int, bit: int) -> LadderState {
    let s = swapped(state, if state.swap == bit { 0 } else { 1 });
    let a = field_add(s.x_2, s.z_2);
    let aa = field_mul(a, a);
    let b = field_sub(s.x_2, s.z_2);
    let bb = field_mul(b, b);
    let e = field_sub(aa, bb);
    let c = field_add(s.x_3, s.z_3);
    let d = field_sub(s.x_3, s.z_3);
    let da = field_mul(d, a);
    let cb = field_mul(c, b);
    LadderState {
        x_3: field_mul(field_add(da, cb), field_add(da, cb)),
        z_3: field_mul(x_1, field_mul(field_sub(da, cb), field_sub(da, cb))),
        x_2: field_mul(aa, bb),
        z_2: field_mul(e, field_add(aa, field_mul(e, A24 as int))),
        swap: bit,
    }
}

/// The state after the first `steps` bits, from bit 254 downward.
pub open spec fn ladder_state(scalar: Seq<u8>, x_1: int, steps: nat) -> LadderState
    decreases steps,
{
    if steps == 0 {
        ladder_start(x_1)
    } else {
        ladder_step(
            ladder_state(scalar, x_1, (steps - 1) as nat),
            x_1,
            scalar_bit_spec(scalar, 255 - steps) as int,
        )
    }
}

/// The decoded u-coordinate: little-endian, bit 255 ignored, reduced modulo `p`.
pub open spec fn decode_coordinate(u: Seq<u8>) -> int {
    (le_spec(u) % 0x8000_0000_0000_0000_0000_0000_0000_0000_0000_0000_0000_0000_0000_0000_0000_0000int) % p25519()
}

/// `X25519(k, u)` as a residue modulo `p`.
pub open spec fn x25519_value(scalar: Seq<u8>, u: Seq<u8>) -> int {
    let x_1 = decode_coordinate(u);
    let last = ladder_state(prepared_scalar_spec(scalar), x_1, 255);
    let result = swapped(last, last.swap);
    field_mul(result.x_2, pow(result.z_2, (p25519() - 2) as nat) % p25519())
}

/// XOR of two bits.
proof fn lemma_xor_bits(a: u64, b: u64)
    by (bit_vector)
    requires
        a <= 1,
        b <= 1,
    ensures
        a ^ b <= 1,
        (a ^ b == 0) == (a == b),
{
}

/// The raw X25519 function: the little-endian encoding of the ladder's result, including zero.
pub fn scalar_multiply(scalar_bytes: &[u8; 32], u_bytes: &[u8; 32]) -> (output: [u8; 32])
    ensures
        le_spec(output@) == x25519_value(scalar_bytes@, u_bytes@),
{
    let scalar = PreparedScalar::new(scalar_bytes);
    let ghost k = prepared_scalar_spec(scalar_bytes@);
    let x_1 = FieldElement::from_bytes(u_bytes);
    let ghost u = x_1.value();
    let mut x_2 = FieldElement::one();
    let mut z_2 = FieldElement::zero();
    let mut x_3 = FieldElement::from_bytes(u_bytes);
    let mut z_3 = FieldElement::one();
    let mut swap_control: u64 = 0;
    let mut remaining: usize = 255;
    while remaining > 0
        invariant
            remaining <= 255,
            scalar.spec_bytes() == k,
            x_1.wf(),
            x_1.value() == u,
            x_2.wf(),
            z_2.wf(),
            x_3.wf(),
            z_3.wf(),
            swap_control <= 1,
            ({
                let state = ladder_state(k, u, (255 - remaining) as nat);
                &&& x_2.value() == state.x_2
                &&& z_2.value() == state.z_2
                &&& x_3.value() == state.x_3
                &&& z_3.value() == state.z_3
                &&& swap_control == state.swap
            }),
        decreases remaining,
    {
        let bit_index = remaining - 1;
        let ghost before = ladder_state(k, u, (255 - remaining) as nat);
        let scalar_bit = scalar.bit(bit_index);
        proof {
            lemma_xor_bits(swap_control, scalar_bit);
        }
        swap_control = swap_control ^ scalar_bit;
        FieldElement::conditional_swap(swap_control, &mut x_2, &mut x_3);
        FieldElement::conditional_swap(swap_control, &mut z_2, &mut z_3);
        swap_control = scalar_bit;

        let a = x_2.add(&z_2);
        let aa = a.square();
        let b = x_2.subtract(&z_2);
        let bb = b.square();
        let e = aa.subtract(&bb);
        let c = x_3.add(&z_3);
        let d = x_3.subtract(&z_3);
        let da = d.multiply(&a);
        let cb = c.multiply(&b);
        x_3 = da.add(&cb).square();
        z_3 = x_1.multiply(&da.subtract(&cb).square());
        x_2 = aa.multiply(&bb);
        z_2 = e.multiply(&aa.add(&e.multiply_small(A24)));
        proof {
            assert(255 - bit_index == (255 - remaining) + 1);
            assert(ladder_state(k, u, (255 - bit_index) as nat) == ladder_step(before, u, scalar_bit as int));
        }
        remaining = bit_index;
    }
    FieldElement::conditional_swap(swap_control, &mut x_2, &mut x_3);
    FieldElement::conditional_swap(swap_control, &mut z_2, &mut z_3);
    let inverse = z_2.invert();
    x_2.multiply(&inverse).to_bytes()
}

} // verus!
