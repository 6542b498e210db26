//! The AES forward cipher `CIPHER()` (FIPS 197 §5.1, Algorithm 1).
//!
//! Round key zero is added, rounds `1 .. Nr - 1` apply `SUBBYTES()`, `SHIFTROWS()`,
//! `MIXCOLUMNS()`, and `ADDROUNDKEY()`, and round `Nr` omits `MIXCOLUMNS()`.

use vstd::prelude::*;

use super::key::{RoundKey, RoundKeySource};
use super::state::{BLOCK_LEN, State};
use super::transforms::{
    add_round_key, add_round_key_spec, mix_columns, mix_columns_spec, shift_rows, shift_rows_spec,
    sub_bytes, sub_bytes_spec,
};

verus! {

/// One complete forward round with round key `k`.
pub open spec fn enc_round(s: Seq<u8>, k: Seq<u8>) -> Seq<u8> {
    add_round_key_spec(mix_columns_spec(shift_rows_spec(sub_bytes_spec(s))), k)
}

/// The state after complete rounds `1 ..= r` starting from `s`.
pub open spec fn enc_rounds(keys: Seq<Seq<u8>>, r: nat, s: Seq<u8>) -> Seq<u8>
    decreases r,
{
    if r == 0 {
        s
    } else {
        enc_round(enc_rounds(keys, (r - 1) as nat, s), keys[r as int])
    }
}

/// `CIPHER()` of one sixteen-byte block under round keys `keys[0 ..= Nr]`.
pub open spec fn cipher_spec(keys: Seq<Seq<u8>>, block: Seq<u8>) -> Seq<u8> {
    let nr = (keys.len() - 1) as nat;
    add_round_key_spec(
        shift_rows_spec(sub_bytes_spec(enc_rounds(keys, (nr - 1) as nat, add_round_key_spec(block, keys[0])))),
        keys[nr as int],
    )
}

/// One of the complete forward rounds.
fn apply_complete_round(state: &mut State, round_key: &RoundKey)
    ensures
        final(state)@ == enc_round(old(state)@, round_key@),
{
    sub_bytes(state);
    shift_rows(state);
    mix_columns(state);
    add_round_key(state, round_key);
}

/// The final forward round, without column mixing.
fn apply_final_round(state: &mut State, round_key: &RoundKey)
    ensures
        final(state)@ == add_round_key_spec(shift_rows_spec(sub_bytes_spec(old(state)@)), round_key@),
{
    sub_bytes(state);
    shift_rows(state);
    add_round_key(state, round_key);
}

/// Transform one block in place with an expanded key schedule.
pub fn encrypt_block<S: RoundKeySource>(block: &mut [u8; BLOCK_LEN], schedule: &S)
    ensures
        final(block)@ == cipher_spec(schedule.spec_round_keys(), old(block)@),
{
    let round_count = schedule.round_count();
    let ghost keys = schedule.spec_round_keys();
    let mut state = State::from_block(block);
    let initial_round_key = schedule.round_key(0);
    add_round_key(&mut state, &initial_round_key);
    let ghost start = state@;

    let mut round: usize = 1;
    while round < round_count
        invariant
            1 <= round <= round_count,
            round_count + 1 == keys.len(),
            keys == schedule.spec_round_keys(),
            state@ == enc_rounds(keys, (round - 1) as nat, start),
        decreases round_count - round,
    {
        let round_key = schedule.round_key(round);
        apply_complete_round(&mut state, &round_key);
        round = round + 1;
    }

    let final_round_key = schedule.round_key(round_count);
    apply_final_round(&mut state, &final_round_key);
    state.write_block(block);
}

} // verus!
