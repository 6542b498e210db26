//! Forward and inverse AES transformations of the complete state (FIPS 197 §5.1 and §5.3).
//!
//! `SUBBYTES()` applies the S-box to every byte, `SHIFTROWS()` rotates row `r` left by `r`,
//! `MIXCOLUMNS()` multiplies every column by a fixed matrix over `GF(2^8)`, and `ADDROUNDKEY()`
//! XORs a round key into the state. Each inverse is proved to undo its forward transformation.

use vstd::prelude::*;

use super::field::{field_add, gf_mul, multiply};
use super::key::RoundKey;
use super::state::{STATE_COLUMNS, STATE_ROWS, State};
use super::substitution::{
    inv_sbox_spec, inverse_substitute_byte, lemma_sbox_inverse, sbox_spec, substitute_byte,
};
use crate::bits::lemma_xor_u8;
use crate::wipe::wipe_array;

verus! {

/// Field element `{02}` of the forward matrix.
const MIX_TIMES_TWO: u8 = 0x02;

/// Field element `{03}` of the forward matrix.
const MIX_TIMES_THREE: u8 = 0x03;

/// Coefficient `{0e}` of the inverse matrix.
const INVERSE_MIX_TIMES_FOURTEEN: u8 = 0x0e;

/// Coefficient `{0b}` of the inverse matrix.
const INVERSE_MIX_TIMES_ELEVEN: u8 = 0x0b;

/// Coefficient `{0d}` of the inverse matrix.
const INVERSE_MIX_TIMES_THIRTEEN: u8 = 0x0d;

/// Coefficient `{09}` of the inverse matrix.
const INVERSE_MIX_TIMES_NINE: u8 = 0x09;

/// Four field terms added in two visible pairs.
pub open spec fn add4(a: u8, b: u8, c: u8, d: u8) -> u8 {
    (a ^ b) ^ (c ^ d)
}

/// Output byte `row` of the forward column product (FIPS 197 equation 5.8).
pub open spec fn mix_row(row: int, c0: u8, c1: u8, c2: u8, c3: u8) -> u8 {
    if row == 0 {
        add4(gf_mul(2, c0), gf_mul(3, c1), c2, c3)
    } else if row == 1 {
        add4(c0, gf_mul(2, c1), gf_mul(3, c2), c3)
    } else if row == 2 {
        add4(c0, c1, gf_mul(2, c2), gf_mul(3, c3))
    } else {
        add4(gf_mul(3, c0), c1, c2, gf_mul(2, c3))
    }
}

/// Output byte `row` of the inverse column product (FIPS 197 equation 5.15).
pub open spec fn inv_mix_row(row: int, c0: u8, c1: u8, c2: u8, c3: u8) -> u8 {
    if row == 0 {
        add4(gf_mul(0x0e, c0), gf_mul(0x0b, c1), gf_mul(0x0d, c2), gf_mul(0x09, c3))
    } else if row == 1 {
        add4(gf_mul(0x09, c0), gf_mul(0x0e, c1), gf_mul(0x0b, c2), gf_mul(0x0d, c3))
    } else if row == 2 {
        add4(gf_mul(0x0d, c0), gf_mul(0x09, c1), gf_mul(0x0e, c2), gf_mul(0x0b, c3))
    } else {
        add4(gf_mul(0x0b, c0), gf_mul(0x0d, c1), gf_mul(0x09, c2), gf_mul(0x0e, c3))
    }
}

/// `SUBBYTES()` on a sixteen-byte state.
pub open spec fn sub_bytes_spec(s: Seq<u8>) -> Seq<u8> {
    Seq::new(16, |i: int| sbox_spec(s[i]))
}

/// `INVSUBBYTES()` on a sixteen-byte state.
pub open spec fn inv_sub_bytes_spec(s: Seq<u8>) -> Seq<u8> {
    Seq::new(16, |i: int| inv_sbox_spec(s[i]))
}

/// `SHIFTROWS()`: `s'[r, c] = s[r, (c + r) mod 4]` (FIPS 197 equation 5.5).
pub open spec fn shift_rows_spec(s: Seq<u8>) -> Seq<u8> {
    Seq::new(16, |i: int| s[i % 4 + 4 * ((i / 4 + i % 4) % 4)])
}

/// `INVSHIFTROWS()`: `s'[r, c] = s[r, (c - r) mod 4]` (FIPS 197 equation 5.12).
pub open spec fn inv_shift_rows_spec(s: Seq<u8>) -> Seq<u8> {
    Seq::new(16, |i: int| s[i % 4 + 4 * ((i / 4 + 4 - i % 4) % 4)])
}

/// `MIXCOLUMNS()`: every column multiplied by the forward matrix.
pub open spec fn mix_columns_spec(s: Seq<u8>) -> Seq<u8> {
    Seq::new(
        16,
        |i: int| mix_row(i % 4, s[4 * (i / 4)], s[4 * (i / 4) + 1], s[4 * (i / 4) + 2], s[4 * (i / 4) + 3]),
    )
}

/// `INVMIXCOLUMNS()`: every column multiplied by the inverse matrix.
pub open spec fn inv_mix_columns_spec(s: Seq<u8>) -> Seq<u8> {
    Seq::new(
        16,
        |i: int|
            inv_mix_row(i % 4, s[4 * (i / 4)], s[4 * (i / 4) + 1], s[4 * (i / 4) + 2], s[4 * (i / 4) + 3]),
    )
}

/// `ADDROUNDKEY()`: bytewise XOR of a sixteen-byte round key.
pub open spec fn add_round_key_spec(s: Seq<u8>, k: Seq<u8>) -> Seq<u8> {
    Seq::new(16, |i: int| s[i] ^ k[i])
}

#[verifier::rlimit(100)]
/// Row 0 of the inverse matrix recovers column byte 0 from a forward-mixed column.
proof fn lemma_mix_column_inverse_row0(c0: u8, c1: u8, c2: u8, c3: u8, m0: u8, m1: u8, m2: u8, m3: u8)
    by (bit_vector)
    requires
        m0 == add4(gf_mul(2, c0), gf_mul(3, c1), c2, c3),
        m1 == add4(c0, gf_mul(2, c1), gf_mul(3, c2), c3),
        m2 == add4(c0, c1, gf_mul(2, c2), gf_mul(3, c3)),
        m3 == add4(gf_mul(3, c0), c1, c2, gf_mul(2, c3)),
    ensures
        add4(gf_mul(0x0e, m0), gf_mul(0x0b, m1), gf_mul(0x0d, m2), gf_mul(0x09, m3)) == c0,
{
}

#[verifier::rlimit(100)]
/// Row 1 of the inverse matrix recovers column byte 1 from a forward-mixed column.
proof fn lemma_mix_column_inverse_row1(c0: u8, c1: u8, c2: u8, c3: u8, m0: u8, m1: u8, m2: u8, m3: u8)
    by (bit_vector)
    requires
        m0 == add4(gf_mul(2, c0), gf_mul(3, c1), c2, c3),
        m1 == add4(c0, gf_mul(2, c1), gf_mul(3, c2), c3),
        m2 == add4(c0, c1, gf_mul(2, c2), gf_mul(3, c3)),
        m3 == add4(gf_mul(3, c0), c1, c2, gf_mul(2, c3)),
    ensures
        add4(gf_mul(0x09, m0), gf_mul(0x0e, m1), gf_mul(0x0b, m2), gf_mul(0x0d, m3)) == c1,
{
}

#[verifier::rlimit(100)]
/// Row 2 of the inverse matrix recovers column byte 2 from a forward-mixed column.
proof fn lemma_mix_column_inverse_row2(c0: u8, c1: u8, c2: u8, c3: u8, m0: u8, m1: u8, m2: u8, m3: u8)
    by (bit_vector)
    requires
        m0 == add4(gf_mul(2, c0), gf_mul(3, c1), c2, c3),
        m1 == add4(c0, gf_mul(2, c1), gf_mul(3, c2), c3),
        m2 == add4(c0, c1, gf_mul(2, c2), gf_mul(3, c3)),
        m3 == add4(gf_mul(3, c0), c1, c2, gf_mul(2, c3)),
    ensures
        add4(gf_mul(0x0d, m0), gf_mul(0x09, m1), gf_mul(0x0e, m2), gf_mul(0x0b, m3)) == c2,
{
}

#[verifier::rlimit(100)]
/// Row 3 of the inverse matrix recovers column byte 3 from a forward-mixed column.
proof fn lemma_mix_column_inverse_row3(c0: u8, c1: u8, c2: u8, c3: u8, m0: u8, m1: u8, m2: u8, m3: u8)
    by (bit_vector)
    requires
        m0 == add4(gf_mul(2, c0), gf_mul(3, c1), c2, c3),
        m1 == add4(c0, gf_mul(2, c1), gf_mul(3, c2), c3),
        m2 == add4(c0, c1, gf_mul(2, c2), gf_mul(3, c3)),
        m3 == add4(gf_mul(3, c0), c1, c2, gf_mul(2, c3)),
    ensures
        add4(gf_mul(0x0b, m0), gf_mul(0x0d, m1), gf_mul(0x09, m2), gf_mul(0x0e, m3)) == c3,
{
}

/// `INVSUBBYTES()` undoes `SUBBYTES()`.
pub proof fn lemma_sub_bytes_inverse(s: Seq<u8>)
    requires
        s.len() == 16,
    ensures
        inv_sub_bytes_spec(sub_bytes_spec(s)) == s,
{
    assert forall|i: int| 0 <= i < 16 implies #[trigger] inv_sub_bytes_spec(sub_bytes_spec(s))[i]
        == s[i] by {
        lemma_sbox_inverse(s[i]);
    }
    assert(inv_sub_bytes_spec(sub_bytes_spec(s)) =~= s);
}

/// `INVSHIFTROWS()` undoes `SHIFTROWS()`.
pub proof fn lemma_shift_rows_inverse(s: Seq<u8>)
    requires
        s.len() == 16,
    ensures
        inv_shift_rows_spec(shift_rows_spec(s)) == s,
{
    assert(inv_shift_rows_spec(shift_rows_spec(s)) =~= s);
}

/// `INVMIXCOLUMNS()` undoes `MIXCOLUMNS()`.
pub proof fn lemma_mix_columns_inverse(s: Seq<u8>)
    requires
        s.len() == 16,
    ensures
        inv_mix_columns_spec(mix_columns_spec(s)) == s,
{
    let m = mix_columns_spec(s);
    assert forall|i: int| 0 <= i < 16 implies #[trigger] inv_mix_columns_spec(m)[i] == s[i] by {
        let c = i / 4;
        let (c0, c1, c2, c3) = (s[4 * c], s[4 * c + 1], s[4 * c + 2], s[4 * c + 3]);
        let (m0, m1, m2, m3) = (m[4 * c], m[4 * c + 1], m[4 * c + 2], m[4 * c + 3]);
        lemma_mix_column_inverse_row0(c0, c1, c2, c3, m0, m1, m2, m3);
        lemma_mix_column_inverse_row1(c0, c1, c2, c3, m0, m1, m2, m3);
        lemma_mix_column_inverse_row2(c0, c1, c2, c3, m0, m1, m2, m3);
        lemma_mix_column_inverse_row3(c0, c1, c2, c3, m0, m1, m2, m3);
    }
    assert(inv_mix_columns_spec(m) =~= s);
}

#[verifier::rlimit(100)]
/// Row 0 of the forward matrix recovers column byte 0 from an inverse-mixed column.
proof fn lemma_mix_column_forward_row0(c0: u8, c1: u8, c2: u8, c3: u8, m0: u8, m1: u8, m2: u8, m3: u8)
    by (bit_vector)
    requires
        m0 == add4(gf_mul(0x0e, c0), gf_mul(0x0b, c1), gf_mul(0x0d, c2), gf_mul(0x09, c3)),
        m1 == add4(gf_mul(0x09, c0), gf_mul(0x0e, c1), gf_mul(0x0b, c2), gf_mul(0x0d, c3)),
        m2 == add4(gf_mul(0x0d, c0), gf_mul(0x09, c1), gf_mul(0x0e, c2), gf_mul(0x0b, c3)),
        m3 == add4(gf_mul(0x0b, c0), gf_mul(0x0d, c1), gf_mul(0x09, c2), gf_mul(0x0e, c3)),
    ensures
        add4(gf_mul(2, m0), gf_mul(3, m1), m2, m3) == c0,
{
}

#[verifier::rlimit(100)]
/// Row 1 of the forward matrix recovers column byte 1 from an inverse-mixed column.
proof fn lemma_mix_column_forward_row1(c0: u8, c1: u8, c2: u8, c3: u8, m0: u8, m1: u8, m2: u8, m3: u8)
    by (bit_vector)
    requires
        m0 == add4(gf_mul(0x0e, c0), gf_mul(0x0b, c1), gf_mul(0x0d, c2), gf_mul(0x09, c3)),
        m1 == add4(gf_mul(0x09, c0), gf_mul(0x0e, c1), gf_mul(0x0b, c2), gf_mul(0x0d, c3)),
        m2 == add4(gf_mul(0x0d, c0), gf_mul(0x09, c1), gf_mul(0x0e, c2), gf_mul(0x0b, c3)),
        m3 == add4(gf_mul(0x0b, c0), gf_mul(0x0d, c1), gf_mul(0x09, c2), gf_mul(0x0e, c3)),
    ensures
        add4(m0, gf_mul(2, m1), gf_mul(3, m2), m3) == c1,
{
}

#[verifier::rlimit(100)]
/// Row 2 of the forward matrix recovers column byte 2 from an inverse-mixed column.
proof fn lemma_mix_column_forward_row2(c0: u8, c1: u8, c2: u8, c3: u8, m0: u8, m1: u8, m2: u8, m3: u8)
    by (bit_vector)
    requires
        m0 == add4(gf_mul(0x0e, c0), gf_mul(0x0b, c1), gf_mul(0x0d, c2), gf_mul(0x09, c3)),
        m1 == add4(gf_mul(0x09, c0), gf_mul(0x0e, c1), gf_mul(0x0b, c2), gf_mul(0x0d, c3)),
        m2 == add4(gf_mul(0x0d, c0), gf_mul(0x09, c1), gf_mul(0x0e, c2), gf_mul(0x0b, c3)),
        m3 == add4(gf_mul(0x0b, c0), gf_mul(0x0d, c1), gf_mul(0x09, c2), gf_mul(0x0e, c3)),
    ensures
        add4(m0, m1, gf_mul(2, m2), gf_mul(3, m3)) == c2,
{
}

#[verifier::rlimit(100)]
/// Row 3 of the forward matrix recovers column byte 3 from an inverse-mixed column.
proof fn lemma_mix_column_forward_row3(c0: u8, c1: u8, c2: u8, c3: u8, m0: u8, m1: u8, m2: u8, m3: u8)
    by (bit_vector)
    requires
        m0 == add4(gf_mul(0x0e, c0), gf_mul(0x0b, c1), gf_mul(0x0d, c2), gf_mul(0x09, c3)),
        m1 == add4(gf_mul(0x09, c0), gf_mul(0x0e, c1), gf_mul(0x0b, c2), gf_mul(0x0d, c3)),
        m2 == add4(gf_mul(0x0d, c0), gf_mul(0x09, c1), gf_mul(0x0e, c2), gf_mul(0x0b, c3)),
        m3 == add4(gf_mul(0x0b, c0), gf_mul(0x0d, c1), gf_mul(0x09, c2), gf_mul(0x0e, c3)),
    ensures
        add4(gf_mul(3, m0), m1, m2, gf_mul(2, m3)) == c3,
{
}

/// `SUBBYTES()` undoes `INVSUBBYTES()`.
pub proof fn lemma_inv_sub_bytes_reversed(s: Seq<u8>)
    requires
        s.len() == 16,
    ensures
        sub_bytes_spec(inv_sub_bytes_spec(s)) == s,
{
    assert forall|i: int| 0 <= i < 16 implies #[trigger] sub_bytes_spec(inv_sub_bytes_spec(s))[i]
        == s[i] by {
        lemma_sbox_inverse(s[i]);
    }
    assert(sub_bytes_spec(inv_sub_bytes_spec(s)) =~= s);
}

/// `SHIFTROWS()` undoes `INVSHIFTROWS()`.
pub proof fn lemma_inv_shift_rows_reversed(s: Seq<u8>)
    requires
        s.len() == 16,
    ensures
        shift_rows_spec(inv_shift_rows_spec(s)) == s,
{
    assert(shift_rows_spec(inv_shift_rows_spec(s)) =~= s);
}

/// `MIXCOLUMNS()` undoes `INVMIXCOLUMNS()`.
pub proof fn lemma_inv_mix_columns_reversed(s: Seq<u8>)
    requires
        s.len() == 16,
    ensures
        mix_columns_spec(inv_mix_columns_spec(s)) == s,
{
    let m = inv_mix_columns_spec(s);
    assert forall|i: int| 0 <= i < 16 implies #[trigger] mix_columns_spec(m)[i] == s[i] by {
        let c = i / 4;
        let (c0, c1, c2, c3) = (s[4 * c], s[4 * c + 1], s[4 * c + 2], s[4 * c + 3]);
        let (m0, m1, m2, m3) = (m[4 * c], m[4 * c + 1], m[4 * c + 2], m[4 * c + 3]);
        lemma_mix_column_forward_row0(c0, c1, c2, c3, m0, m1, m2, m3);
        lemma_mix_column_forward_row1(c0, c1, c2, c3, m0, m1, m2, m3);
        lemma_mix_column_forward_row2(c0, c1, c2, c3, m0, m1, m2, m3);
        lemma_mix_column_forward_row3(c0, c1, c2, c3, m0, m1, m2, m3);
    }
    assert(mix_columns_spec(m) =~= s);
}

/// Adding the same round key twice restores the state (FIPS 197 §5.3.4).
pub proof fn lemma_add_round_key_twice(s: Seq<u8>, k: Seq<u8>)
    requires
        s.len() == 16,
    ensures
        add_round_key_spec(add_round_key_spec(s, k), k) == s,
{
    assert forall|i: int| 0 <= i < 16 implies #[trigger] add_round_key_spec(
        add_round_key_spec(s, k),
        k,
    )[i] == s[i] by {
        lemma_xor_u8(s[i], k[i], 0);
    }
    assert(add_round_key_spec(add_round_key_spec(s, k), k) =~= s);
}

/// Multiply one column by the forward matrix.
pub fn mix_column(input: [u8; STATE_ROWS]) -> (mixed: [u8; STATE_ROWS])
    ensures
        forall|r: int| 0 <= r < 4 ==> mixed[r] == mix_row(r, input[0], input[1], input[2], input[3]),
{
    let m0 = field_add(
        field_add(multiply(MIX_TIMES_TWO, input[0]), multiply(MIX_TIMES_THREE, input[1])),
        field_add(input[2], input[3]),
    );
    let m1 = field_add(
        field_add(input[0], multiply(MIX_TIMES_TWO, input[1])),
        field_add(multiply(MIX_TIMES_THREE, input[2]), input[3]),
    );
    let m2 = field_add(
        field_add(input[0], input[1]),
        field_add(multiply(MIX_TIMES_TWO, input[2]), multiply(MIX_TIMES_THREE, input[3])),
    );
    let m3 = field_add(
        field_add(multiply(MIX_TIMES_THREE, input[0]), input[1]),
        field_add(input[2], multiply(MIX_TIMES_TWO, input[3])),
    );
    [m0, m1, m2, m3]
}

/// Multiply one column by the inverse matrix.
pub fn inverse_mix_column(input: [u8; STATE_ROWS]) -> (mixed: [u8; STATE_ROWS])
    ensures
        forall|r: int| 0 <= r < 4 ==> mixed[r] == inv_mix_row(r, input[0], input[1], input[2], input[3]),
{
    let m0 = field_add(
        field_add(multiply(INVERSE_MIX_TIMES_FOURTEEN, input[0]), multiply(INVERSE_MIX_TIMES_ELEVEN, input[1])),
        field_add(multiply(INVERSE_MIX_TIMES_THIRTEEN, input[2]), multiply(INVERSE_MIX_TIMES_NINE, input[3])),
    );
    let m1 = field_add(
        field_add(multiply(INVERSE_MIX_TIMES_NINE, input[0]), multiply(INVERSE_MIX_TIMES_FOURTEEN, input[1])),
        field_add(multiply(INVERSE_MIX_TIMES_ELEVEN, input[2]), multiply(INVERSE_MIX_TIMES_THIRTEEN, input[3])),
    );
    let m2 = field_add(
        field_add(multiply(INVERSE_MIX_TIMES_THIRTEEN, input[0]), multiply(INVERSE_MIX_TIMES_NINE, input[1])),
        field_add(multiply(INVERSE_MIX_TIMES_FOURTEEN, input[2]), multiply(INVERSE_MIX_TIMES_ELEVEN, input[3])),
    );
    let m3 = field_add(
        field_add(multiply(INVERSE_MIX_TIMES_ELEVEN, input[0]), multiply(INVERSE_MIX_TIMES_THIRTEEN, input[1])),
        field_add(multiply(INVERSE_MIX_TIMES_NINE, input[2]), multiply(INVERSE_MIX_TIMES_FOURTEEN, input[3])),
    );
    [m0, m1, m2, m3]
}

/// Apply the forward S-box independently to every state byte.
#[verifier::rlimit(40)]
pub fn sub_bytes(state: &mut State)
    ensures
        final(state)@ == sub_bytes_spec(old(state)@),
{
    let ghost initial = state@;
    let mut row: usize = 0;
    while row < STATE_ROWS
        invariant
            row <= 4,
            initial.len() == 16,
            state@.len() == 16,
            forall|i: int| 0 <= i < 16 && i % 4 < row ==> state@[i] == sbox_spec(initial[i]),
            forall|i: int| 0 <= i < 16 && i % 4 >= row ==> state@[i] == initial[i],
        decreases 4 - row,
    {
        let mut column: usize = 0;
        while column < STATE_COLUMNS
            invariant
                row < 4,
                column <= 4,
                initial.len() == 16,
                state@.len() == 16,
                forall|i: int|
                    0 <= i < 16 && (i % 4 < row || (i % 4 == row && i / 4 < column)) ==> state@[i]
                        == sbox_spec(initial[i]),
                forall|i: int|
                    0 <= i < 16 && !(i % 4 < row || (i % 4 == row && i / 4 < column)) ==> state@[i]
                        == initial[i],
            decreases 4 - column,
        {
            let input_byte = state.byte(row, column);
            let substituted_byte = substitute_byte(input_byte);
            state.set_byte(row, column, substituted_byte);
            column = column + 1;
        }
        row = row + 1;
    }
    assert(state@ =~= sub_bytes_spec(initial));
}

/// Apply the inverse S-box independently to every state byte.
#[verifier::rlimit(40)]
pub fn inverse_sub_bytes(state: &mut State)
    ensures
        final(state)@ == inv_sub_bytes_spec(old(state)@),
{
    let ghost initial = state@;
    let mut row: usize = 0;
    while row < STATE_ROWS
        invariant
            row <= 4,
            initial.len() == 16,
            state@.len() == 16,
            forall|i: int| 0 <= i < 16 && i % 4 < row ==> state@[i] == inv_sbox_spec(initial[i]),
            forall|i: int| 0 <= i < 16 && i % 4 >= row ==> state@[i] == initial[i],
        decreases 4 - row,
    {
        let mut column: usize = 0;
        while column < STATE_COLUMNS
            invariant
                row < 4,
                column <= 4,
                initial.len() == 16,
                state@.len() == 16,
                forall|i: int|
                    0 <= i < 16 && (i % 4 < row || (i % 4 == row && i / 4 < column)) ==> state@[i]
                        == inv_sbox_spec(initial[i]),
                forall|i: int|
                    0 <= i < 16 && !(i % 4 < row || (i % 4 == row && i / 4 < column)) ==> state@[i]
                        == initial[i],
            decreases 4 - column,
        {
            let input_byte = state.byte(row, column);
            let substituted_byte = inverse_substitute_byte(input_byte);
            state.set_byte(row, column, substituted_byte);
            column = column + 1;
        }
        row = row + 1;
    }
    assert(state@ =~= inv_sub_bytes_spec(initial));
}

/// Cyclically shift each state row left by its row index.
#[verifier::rlimit(40)]
pub fn shift_rows(state: &mut State)
    ensures
        final(state)@ == shift_rows_spec(old(state)@),
{
    let ghost initial = state@;
    let mut row: usize = 0;
    while row < STATE_ROWS
        invariant
            row <= 4,
            initial.len() == 16,
            state@.len() == 16,
            forall|i: int| 0 <= i < 16 && i % 4 < row ==> state@[i] == shift_rows_spec(initial)[i],
            forall|i: int| 0 <= i < 16 && i % 4 >= row ==> state@[i] == initial[i],
        decreases 4 - row,
    {
        let mut saved_row = [
            state.byte(row, 0),
            state.byte(row, 1),
            state.byte(row, 2),
            state.byte(row, 3),
        ];
        let mut column: usize = 0;
        while column < STATE_COLUMNS
            invariant
                row < 4,
                column <= 4,
                initial.len() == 16,
                state@.len() == 16,
                forall|c: int| 0 <= c < 4 ==> saved_row[c] == initial[row + 4 * c],
                forall|i: int|
                    0 <= i < 16 && (i % 4 < row || (i % 4 == row && i / 4 < column)) ==> state@[i]
                        == shift_rows_spec(initial)[i],
                forall|i: int|
                    0 <= i < 16 && !(i % 4 < row || (i % 4 == row && i / 4 < column)) ==> state@[i]
                        == initial[i],
            decreases 4 - column,
        {
            let source_column = (column + row) % STATE_COLUMNS;
            state.set_byte(row, column, saved_row[source_column]);
            column = column + 1;
        }
        wipe_array(&mut saved_row);
        row = row + 1;
    }
    assert(state@ =~= shift_rows_spec(initial));
}

/// Cyclically shift each state row right by its row index.
#[verifier::rlimit(40)]
pub fn inverse_shift_rows(state: &mut State)
    ensures
        final(state)@ == inv_shift_rows_spec(old(state)@),
{
    let ghost initial = state@;
    let mut row: usize = 0;
    while row < STATE_ROWS
        invariant
            row <= 4,
            initial.len() == 16,
            state@.len() == 16,
            forall|i: int| 0 <= i < 16 && i % 4 < row ==> state@[i] == inv_shift_rows_spec(initial)[i],
            forall|i: int| 0 <= i < 16 && i % 4 >= row ==> state@[i] == initial[i],
        decreases 4 - row,
    {
        let mut saved_row = [
            state.byte(row, 0),
            state.byte(row, 1),
            state.byte(row, 2),
            state.byte(row, 3),
        ];
        let mut column: usize = 0;
        while column < STATE_COLUMNS
            invariant
                row < 4,
                column <= 4,
                initial.len() == 16,
                state@.len() == 16,
                forall|c: int| 0 <= c < 4 ==> saved_row[c] == initial[row + 4 * c],
                forall|i: int|
                    0 <= i < 16 && (i % 4 < row || (i % 4 == row && i / 4 < column)) ==> state@[i]
                        == inv_shift_rows_spec(initial)[i],
                forall|i: int|
                    0 <= i < 16 && !(i % 4 < row || (i % 4 == row && i / 4 < column)) ==> state@[i]
                        == initial[i],
            decreases 4 - column,
        {
            let source_column = (column + STATE_COLUMNS - row) % STATE_COLUMNS;
            state.set_byte(row, column, saved_row[source_column]);
            column = column + 1;
        }
        wipe_array(&mut saved_row);
        row = row + 1;
    }
    assert(state@ =~= inv_shift_rows_spec(initial));
}

/// Multiply every state column by the forward matrix.
#[verifier::rlimit(40)]
pub fn mix_columns(state: &mut State)
    ensures
        final(state)@ == mix_columns_spec(old(state)@),
{
    let ghost initial = state@;
    let mut column: usize = 0;
    while column < STATE_COLUMNS
        invariant
            column <= 4,
            initial.len() == 16,
            state@.len() == 16,
            forall|i: int| 0 <= i < 16 && i / 4 < column ==> state@[i] == mix_columns_spec(initial)[i],
            forall|i: int| 0 <= i < 16 && i / 4 >= column ==> state@[i] == initial[i],
        decreases 4 - column,
    {
        let input_column = [
            state.byte(0, column),
            state.byte(1, column),
            state.byte(2, column),
            state.byte(3, column),
        ];
        let mut mixed_column = mix_column(input_column);
        state.set_byte(0, column, mixed_column[0]);
        state.set_byte(1, column, mixed_column[1]);
        state.set_byte(2, column, mixed_column[2]);
        state.set_byte(3, column, mixed_column[3]);
        wipe_array(&mut mixed_column);
        column = column + 1;
    }
    assert(state@ =~= mix_columns_spec(initial));
}

/// Multiply every state column by the inverse matrix.
#[verifier::rlimit(40)]
pub fn inverse_mix_columns(state: &mut State)
    ensures
        final(state)@ == inv_mix_columns_spec(old(state)@),
{
    let ghost initial = state@;
    let mut column: usize = 0;
    while column < STATE_COLUMNS
        invariant
            column <= 4,
            initial.len() == 16,
            state@.len() == 16,
            forall|i: int| 0 <= i < 16 && i / 4 < column ==> state@[i] == inv_mix_columns_spec(initial)[i],
            forall|i: int| 0 <= i < 16 && i / 4 >= column ==> state@[i] == initial[i],
        decreases 4 - column,
    {
        let input_column = [
            state.byte(0, column),
            state.byte(1, column),
            state.byte(2, column),
            state.byte(3, column),
        ];
        let mut mixed_column = inverse_mix_column(input_column);
        state.set_byte(0, column, mixed_column[0]);
        state.set_byte(1, column, mixed_column[1]);
        state.set_byte(2, column, mixed_column[2]);
        state.set_byte(3, column, mixed_column[3]);
        wipe_array(&mut mixed_column);
        column = column + 1;
    }
    assert(state@ =~= inv_mix_columns_spec(initial));
}

/// XOR one round key into the state.
#[verifier::rlimit(40)]
pub fn add_round_key(state: &mut State, round_key: &RoundKey)
    ensures
        final(state)@ == add_round_key_spec(old(state)@, round_key@),
{
    let ghost initial = state@;
    let mut column: usize = 0;
    while column < STATE_COLUMNS
        invariant
            column <= 4,
            initial.len() == 16,
            state@.len() == 16,
            forall|i: int| 0 <= i < 16 && i / 4 < column ==> state@[i] == initial[i] ^ round_key@[i],
            forall|i: int| 0 <= i < 16 && i / 4 >= column ==> state@[i] == initial[i],
        decreases 4 - column,
    {
        let mut row: usize = 0;
        while row < STATE_ROWS
            invariant
                column < 4,
                row <= 4,
                initial.len() == 16,
                state@.len() == 16,
                forall|i: int|
                    0 <= i < 16 && (i / 4 < column || (i / 4 == column && i % 4 < row)) ==> state@[i]
                        == initial[i] ^ round_key@[i],
                forall|i: int|
                    0 <= i < 16 && !(i / 4 < column || (i / 4 == column && i % 4 < row)) ==> state@[i]
                        == initial[i],
            decreases 4 - row,
        {
            let state_byte = state.byte(row, column);
            let key_byte = round_key.byte(column, row);
            state.set_byte(row, column, field_add(state_byte, key_byte));
            row = row + 1;
        }
        column = column + 1;
    }
    assert(state@ =~= add_round_key_spec(initial, round_key@));
}

} // verus!
