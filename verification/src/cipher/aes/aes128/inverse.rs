//! The AES inverse cipher `INVCIPHER()` (FIPS 197 §5.3, Algorithm 3), and the proof that it
//! undoes `CIPHER()`.

use vstd::prelude::*;

use super::forward::{cipher_spec, enc_round, enc_rounds};
use super::key::{RoundKey, RoundKeySource};
use super::state::{BLOCK_LEN, State};
use super::transforms::{
    lemma_inv_mix_columns_reversed, lemma_inv_shift_rows_reversed, lemma_inv_sub_bytes_reversed,
    add_round_key, add_round_key_spec, inv_mix_columns_spec, inv_shift_rows_spec,
    inv_sub_bytes_spec, inverse_mix_columns, inverse_shift_rows, inverse_sub_bytes,
    lemma_add_round_key_twice, lemma_mix_columns_inverse, lemma_shift_rows_inverse,
    lemma_sub_bytes_inverse, mix_columns_spec, shift_rows_spec, sub_bytes_spec,
};

verus! {

/// One complete inverse round with round key `k`.
pub open spec fn dec_round(s: Seq<u8>, k: Seq<u8>) -> Seq<u8> {
    inv_mix_columns_spec(add_round_key_spec(inv_sub_bytes_spec(inv_shift_rows_spec(s)), k))
}

/// The state after inverse rounds `nr - 1` down to `r` starting from `s`.
pub open spec fn dec_rounds(keys: Seq<Seq<u8>>, nr: nat, r: nat, s: Seq<u8>) -> Seq<u8>
    decreases nr - r,
{
    if r >= nr {
        s
    } else {
        dec_round(dec_rounds(keys, nr, r + 1, s), keys[r as int])
    }
}

/// `INVCIPHER()` of one sixteen-byte block under round keys `keys[0 ..= Nr]`.
pub open spec fn inv_cipher_spec(keys: Seq<Seq<u8>>, block: Seq<u8>) -> Seq<u8> {
    let nr = (keys.len() - 1) as nat;
    add_round_key_spec(
        inv_sub_bytes_spec(inv_shift_rows_spec(dec_rounds(keys, nr, 1, add_round_key_spec(block, keys[nr as int])))),
        keys[0],
    )
}

/// Each inverse round undoes the matching forward round together with the substitution and
/// row shift that follow it.
proof fn lemma_rounds_cancel(keys: Seq<Seq<u8>>, nr: nat, r: nat, z: Seq<u8>)
    requires
        1 <= r <= nr,
        z.len() == 16,
    ensures
        dec_rounds(keys, nr, r, shift_rows_spec(sub_bytes_spec(enc_rounds(keys, (nr - 1) as nat, z))))
            == shift_rows_spec(sub_bytes_spec(enc_rounds(keys, (r - 1) as nat, z))),
    decreases nr - r,
{
    if r < nr {
        lemma_rounds_cancel(keys, nr, r + 1, z);
        let w = enc_rounds(keys, (r - 1) as nat, z);
        let t = shift_rows_spec(sub_bytes_spec(w));
        let m = mix_columns_spec(t);
        let after = add_round_key_spec(m, keys[r as int]);
        assert(enc_rounds(keys, r, z) == after);
        lemma_sub_bytes_inverse(after);
        lemma_shift_rows_inverse(sub_bytes_spec(after));
        lemma_add_round_key_twice(m, keys[r as int]);
        lemma_mix_columns_inverse(t);
    }
}

/// Decryption undoes encryption: `INVCIPHER(CIPHER(b)) = b` for every block and every key
/// schedule of at least one round.
pub proof fn lemma_inverse_cipher_undoes_cipher(keys: Seq<Seq<u8>>, block: Seq<u8>)
    requires
        keys.len() >= 2,
        block.len() == 16,
    ensures
        inv_cipher_spec(keys, cipher_spec(keys, block)) == block,
{
    let nr = (keys.len() - 1) as nat;
    let z = add_round_key_spec(block, keys[0]);
    let x = enc_rounds(keys, (nr - 1) as nat, z);
    let y = shift_rows_spec(sub_bytes_spec(x));
    lemma_add_round_key_twice(y, keys[nr as int]);
    lemma_rounds_cancel(keys, nr, 1, z);
    assert(enc_rounds(keys, 0, z) == z);
    lemma_sub_bytes_inverse(z);
    lemma_shift_rows_inverse(sub_bytes_spec(z));
    lemma_add_round_key_twice(block, keys[0]);
}

/// Each forward round undoes the matching inverse round together with the inverse row shift
/// and substitution that precede it.
proof fn lemma_rounds_cancel_reversed(keys: Seq<Seq<u8>>, nr: nat, r: nat, a: Seq<u8>)
    requires
        1 <= r <= nr,
        a.len() == 16,
        nr < keys.len(),
    ensures
        enc_rounds(keys, (r - 1) as nat, inv_sub_bytes_spec(inv_shift_rows_spec(dec_rounds(keys, nr, 1, a))))
            == inv_sub_bytes_spec(inv_shift_rows_spec(dec_rounds(keys, nr, r, a))),
    decreases r,
{
    if r > 1 {
        lemma_rounds_cancel_reversed(keys, nr, (r - 1) as nat, a);
        let d = dec_rounds(keys, nr, (r - 1) as nat, a);
        let next = dec_rounds(keys, nr, r, a);
        let w = inv_sub_bytes_spec(inv_shift_rows_spec(next));
        let k = keys[(r - 1) as int];
        assert(d == inv_mix_columns_spec(add_round_key_spec(w, k)));
        lemma_inv_sub_bytes_reversed(inv_shift_rows_spec(d));
        lemma_inv_shift_rows_reversed(d);
        lemma_inv_mix_columns_reversed(add_round_key_spec(w, k));
        lemma_add_round_key_twice(w, k);
        assert(enc_rounds(keys, (r - 1) as nat, inv_sub_bytes_spec(inv_shift_rows_spec(dec_rounds(keys, nr, 1, a))))
            == enc_round(inv_sub_bytes_spec(inv_shift_rows_spec(d)), k));
    }
}

/// Encryption undoes decryption: `CIPHER(INVCIPHER(b)) = b` for every block and every key
/// schedule of at least one round.
pub proof fn lemma_cipher_undoes_inverse_cipher(keys: Seq<Seq<u8>>, block: Seq<u8>)
    requires
        keys.len() >= 2,
        block.len() == 16,
    ensures
        cipher_spec(keys, inv_cipher_spec(keys, block)) == block,
{
    let nr = (keys.len() - 1) as nat;
    let a = add_round_key_spec(block, keys[nr as int]);
    let y = dec_rounds(keys, nr, 1, a);
    let z = inv_sub_bytes_spec(inv_shift_rows_spec(y));
    lemma_add_round_key_twice(z, keys[0]);
    lemma_rounds_cancel_reversed(keys, nr, nr, a);
    assert(dec_rounds(keys, nr, nr, a) == a);
    lemma_inv_sub_bytes_reversed(inv_shift_rows_spec(a));
    lemma_inv_shift_rows_reversed(a);
    lemma_add_round_key_twice(block, keys[nr as int]);
}

/// One complete inverse round.
fn apply_complete_inverse_round(state: &mut State, round_key: &RoundKey)
    ensures
        final(state)@ == dec_round(old(state)@, round_key@),
{
    inverse_shift_rows(state);
    inverse_sub_bytes(state);
    add_round_key(state, round_key);
    inverse_mix_columns(state);
}

/// The final inverse round, without inverse column mixing.
fn apply_final_inverse_round(state: &mut State, round_key: &RoundKey)
    ensures
        final(state)@ == add_round_key_spec(inv_sub_bytes_spec(inv_shift_rows_spec(old(state)@)), round_key@),
{
    inverse_shift_rows(state);
    inverse_sub_bytes(state);
    add_round_key(state, round_key);
}

/// Apply `INVCIPHER()` to one block in place with an expanded key schedule.
pub fn decrypt_block<S: RoundKeySource>(block: &mut [u8; BLOCK_LEN], schedule: &S)
    ensures
        final(block)@ == inv_cipher_spec(schedule.spec_round_keys(), old(block)@),
{
    let round_count = schedule.round_count();
    let ghost keys = schedule.spec_round_keys();
    let mut state = State::from_block(block);
    let final_round_key = schedule.round_key(round_count);
    add_round_key(&mut state, &final_round_key);
    let ghost start = state@;

    let mut round: usize = round_count;
    while round > 1
        invariant
            1 <= round <= round_count,
            round_count + 1 == keys.len(),
            keys == schedule.spec_round_keys(),
            state@ == dec_rounds(keys, round_count as nat, round as nat, start),
        decreases round,
    {
        round = round - 1;
        let round_key = schedule.round_key(round);
        apply_complete_inverse_round(&mut state, &round_key);
    }

    let initial_round_key = schedule.round_key(0);
    apply_final_inverse_round(&mut state, &initial_round_key);
    state.write_block(block);
}

} // verus!
