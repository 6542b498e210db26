//! The ChaCha quarter round (RFC 8439 §2.1) and its application to four words of the state
//! (§2.2).

use vstd::prelude::*;
use vstd::wrapping::u32_specs::wrapping_add;

verus! {

/// Number of 32-bit words in the ChaCha20 state.
pub const STATE_WORDS: usize = 16;

/// Rotate a word left by `n` bits, `1 <= n < 32`.
pub open spec fn rotl_spec(x: u32, n: u32) -> u32 {
    (x << n) | (x >> ((32 - n) as u32))
}

/// The quarter round on `(a, b, c, d)`, with `+` modulo `2^32`.
pub open spec fn quarter_round_spec(a: u32, b: u32, c: u32, d: u32) -> (u32, u32, u32, u32) {
    let a1 = wrapping_add(a, b);
    let d1 = rotl_spec(d ^ a1, 16);
    let c1 = wrapping_add(c, d1);
    let b1 = rotl_spec(b ^ c1, 12);
    let a2 = wrapping_add(a1, b1);
    let d2 = rotl_spec(d1 ^ a2, 8);
    let c2 = wrapping_add(c1, d2);
    let b2 = rotl_spec(b1 ^ c2, 7);
    (a2, b2, c2, d2)
}

/// The state after `QUARTERROUND(x, y, z, w)`: only those four words change.
pub open spec fn quarter_round_on_state_spec(s: Seq<u32>, x: int, y: int, z: int, w: int) -> Seq<u32> {
    let q = quarter_round_spec(s[x], s[y], s[z], s[w]);
    s.update(x, q.0).update(y, q.1).update(z, q.2).update(w, q.3)
}

/// Rotate a word left by `n` bits.
fn rotate_left(x: u32, n: u32) -> (rotated: u32)
    requires
        1 <= n < 32,
    ensures
        rotated == rotl_spec(x, n),
{
    (x << n) | (x >> (32 - n))
}

/// The RFC 8439 quarter round on four words in place.
pub fn quarter_round(a: &mut u32, b: &mut u32, c: &mut u32, d: &mut u32)
    ensures
        (*final(a), *final(b), *final(c), *final(d)) == quarter_round_spec(*old(a), *old(b), *old(c), *old(d)),
{
    *a = a.wrapping_add(*b);
    *d = rotate_left(*d ^ *a, 16);

    *c = c.wrapping_add(*d);
    *b = rotate_left(*b ^ *c, 12);

    *a = a.wrapping_add(*b);
    *d = rotate_left(*d ^ *a, 8);

    *c = c.wrapping_add(*d);
    *b = rotate_left(*b ^ *c, 7);
}

/// Apply the quarter round to state words `x`, `y`, `z`, and `w`, which are distinct.
pub fn quarter_round_on_state(state: &mut [u32; STATE_WORDS], x: usize, y: usize, z: usize, w: usize)
    requires
        x < 16 && y < 16 && z < 16 && w < 16,
        x != y && x != z && x != w && y != z && y != w && z != w,
    ensures
        final(state)@ == quarter_round_on_state_spec(old(state)@, x as int, y as int, z as int, w as int),
{
    let mut a = state[x];
    let mut b = state[y];
    let mut c = state[z];
    let mut d = state[w];
    quarter_round(&mut a, &mut b, &mut c, &mut d);
    state[x] = a;
    state[y] = b;
    state[z] = c;
    state[w] = d;
    assert(state@ =~= quarter_round_on_state_spec(old(state)@, x as int, y as int, z as int, w as int));
}

} // verus!
