//! The GCM authentication input and `S` (NIST SP 800-38D §7.1, Algorithm 4 steps 4–5):
//! `S = GHASH_H(A || 0^v || C || 0^u || [len(A)]_64 || [len(C)]_64)`, where each of `A` and `C`
//! is zero-padded to a whole number of blocks on its own and the lengths are in bits.

use vstd::prelude::*;

use super::ghash::field::{BLOCK_BYTES, gf128_mul_spec, xor_block_spec, zero_block_spec};
use super::ghash::state::{ghash_fold_spec, ghash_spec, lemma_ghash_fold_concat};
use super::ghash::{Ghash, GhashResult, HashSubkey};
use crate::bits::be64_spec;
use crate::error::{CryptoError, CryptoResult};
use crate::wipe::wipe_array;

verus! {

/// A byte length whose bit length fits in 64 bits.
pub open spec fn bit_length_fits_spec(byte_length: int) -> bool {
    8 * byte_length <= u64::MAX
}

/// `[len(A)]_64 || [len(C)]_64`, lengths in bits.
pub open spec fn length_block_spec(associated_data_len: int, ciphertext_len: int) -> Seq<u8> {
    be64_spec((8 * associated_data_len) as u64) + be64_spec((8 * ciphertext_len) as u64)
}

/// `input` cut into sixteen-byte blocks, the last one filled up with zero bytes.
pub open spec fn padded_blocks_spec(input: Seq<u8>) -> Seq<Seq<u8>> {
    Seq::new(
        ((input.len() + 15) / 16) as nat,
        |k: int| Seq::new(16, |j: int| if 16 * k + j < input.len() { input[16 * k + j] } else { 0u8 }),
    )
}

/// `S` for hash subkey `h`, associated data `a`, and ciphertext `c`.
pub open spec fn s_spec(h: Seq<u8>, a: Seq<u8>, c: Seq<u8>) -> Seq<u8> {
    ghash_spec(h, padded_blocks_spec(a) + padded_blocks_spec(c) + seq![length_block_spec(a.len() as int, c.len() as int)])
}

/// Folding `a`, then `c`, then one block `last` from zero is `GHASH_H(a || c || last)`.
proof fn lemma_fold_parts(h: Seq<u8>, a: Seq<Seq<u8>>, c: Seq<Seq<u8>>, last: Seq<u8>)
    ensures
        ghash_spec(h, a + c + seq![last]) == gf128_mul_spec(
            xor_block_spec(ghash_fold_spec(h, ghash_fold_spec(h, zero_block_spec(), a), c), last),
            h,
        ),
{
    let tail = seq![last];
    lemma_ghash_fold_concat(h, zero_block_spec(), a, c);
    lemma_ghash_fold_concat(h, zero_block_spec(), a + c, tail);
    assert(tail.drop_last() =~= Seq::<Seq<u8>>::empty());
    let x = ghash_fold_spec(h, ghash_fold_spec(h, zero_block_spec(), a), c);
    assert(ghash_fold_spec(h, x, tail.drop_last()) == x);
    assert(tail.last() == last);
    assert(ghash_fold_spec(h, x, tail) == gf128_mul_spec(xor_block_spec(x, last), h));
}

/// The bit length of a byte length, or [`CryptoError::MessageTooLong`] if it does not fit in
/// 64 bits.
pub fn bit_length(byte_length: usize) -> (result: CryptoResult<u64>)
    ensures
        bit_length_fits_spec(byte_length as int) ==> result == Ok::<u64, CryptoError>((8 * byte_length) as u64),
        !bit_length_fits_spec(byte_length as int) ==> result == Err::<u64, CryptoError>(CryptoError::MessageTooLong),
{
    match (byte_length as u64).checked_mul(8) {
        Some(bits) => Ok(bits),
        None => Err(CryptoError::MessageTooLong),
    }
}

/// Write the big-endian encoding of `value` into `block[at .. at + 8]`.
fn write_be64(block: &mut [u8; BLOCK_BYTES], at: usize, value: u64)
    requires
        at + 8 <= 16,
    ensures
        forall|k: int| 0 <= k < 8 ==> final(block)[at + k] == be64_spec(value)[k],
        forall|j: int| 0 <= j < 16 && !(at <= j < at + 8) ==> final(block)[j] == old(block)[j],
{
    block[at] = (value / 0x100_0000_0000_0000) as u8;
    block[at + 1] = ((value / 0x1_0000_0000_0000) % 0x100) as u8;
    block[at + 2] = ((value / 0x100_0000_0000) % 0x100) as u8;
    block[at + 3] = ((value / 0x1_0000_0000) % 0x100) as u8;
    block[at + 4] = ((value / 0x100_0000) % 0x100) as u8;
    block[at + 5] = ((value / 0x1_0000) % 0x100) as u8;
    block[at + 6] = ((value / 0x100) % 0x100) as u8;
    block[at + 7] = (value % 0x100) as u8;
}

/// The final GHASH block `[len(A)]_64 || [len(C)]_64`.
pub fn length_block(associated_data_len: usize, ciphertext_len: usize) -> (result: CryptoResult<[u8; BLOCK_BYTES]>)
    ensures
        bit_length_fits_spec(associated_data_len as int) && bit_length_fits_spec(ciphertext_len as int)
            ==> (result matches Ok(block) && block@ == length_block_spec(associated_data_len as int, ciphertext_len as int)),
        !(bit_length_fits_spec(associated_data_len as int) && bit_length_fits_spec(ciphertext_len as int))
            ==> result == Err::<[u8; BLOCK_BYTES], CryptoError>(CryptoError::MessageTooLong),
{
    let associated_data_bits = match bit_length(associated_data_len) {
        Ok(bits) => bits,
        Err(error) => return Err(error),
    };
    let ciphertext_bits = match bit_length(ciphertext_len) {
        Ok(bits) => bits,
        Err(error) => return Err(error),
    };
    let mut block = [0u8; BLOCK_BYTES];
    write_be64(&mut block, 0, associated_data_bits);
    write_be64(&mut block, 8, ciphertext_bits);
    assert(block@ =~= length_block_spec(associated_data_len as int, ciphertext_len as int));
    Ok(block)
}

/// Absorb `input` as complete blocks, the last one zero-padded.
pub fn update_zero_padded(ghash: &mut Ghash, input: &[u8])
    ensures
        final(ghash).spec_subkey() == old(ghash).spec_subkey(),
        final(ghash).spec_accumulator() == ghash_fold_spec(
            old(ghash).spec_subkey(),
            old(ghash).spec_accumulator(),
            padded_blocks_spec(input@),
        ),
{
    let ghost h = ghash.spec_subkey();
    let ghost start = ghash.spec_accumulator();
    let ghost blocks = padded_blocks_spec(input@);
    let length = input.len();
    let complete_blocks = length / BLOCK_BYTES;
    let mut block_index: usize = 0;
    while block_index < complete_blocks
        invariant
            length == input@.len(),
            complete_blocks == length / 16,
            blocks == padded_blocks_spec(input@),
            block_index <= complete_blocks,
            ghash.spec_subkey() == h,
            ghash.spec_accumulator() == ghash_fold_spec(h, start, blocks.take(block_index as int)),
        decreases complete_blocks - block_index,
    {
        assert(16 * block_index + 16 <= length) by (nonlinear_arith)
            requires block_index < complete_blocks, complete_blocks == length / 16;
        let first = BLOCK_BYTES * block_index;
        let mut block = [0u8; BLOCK_BYTES];
        let mut index: usize = 0;
        while index < BLOCK_BYTES
            invariant
                first + 16 <= length,
                length == input@.len(),
                index <= 16,
                forall|j: int| 0 <= j < index ==> block[j] == input@[first + j],
            decreases 16 - index,
        {
            block[index] = input[first + index];
            index = index + 1;
        }
        assert(block@ =~= blocks[block_index as int]);
        assert(blocks.take(block_index + 1).drop_last() =~= blocks.take(block_index as int));
        ghash.update_block(&block);
        block_index = block_index + 1;
    }
    let remainder = length - BLOCK_BYTES * complete_blocks;
    if remainder > 0 {
        let first = BLOCK_BYTES * complete_blocks;
        let mut padded = [0u8; BLOCK_BYTES];
        let mut index: usize = 0;
        while index < remainder
            invariant
                first + remainder == length,
                remainder < 16,
                length == input@.len(),
                index <= remainder,
                forall|j: int| 0 <= j < index ==> padded[j] == input@[first + j],
                forall|j: int| remainder <= j < 16 ==> padded[j] == 0,
            decreases remainder - index,
        {
            padded[index] = input[first + index];
            index = index + 1;
        }
        assert(blocks.len() == complete_blocks + 1);
        assert(padded@ =~= blocks[complete_blocks as int]);
        assert(blocks.take(complete_blocks + 1) =~= blocks);
        assert(blocks.take(complete_blocks + 1).drop_last() =~= blocks.take(complete_blocks as int));
        ghash.update_block(&padded);
        wipe_array(&mut padded);
    } else {
        assert(blocks.take(complete_blocks as int) =~= blocks);
    }
}

/// `S = GHASH_H(A || 0^v || C || 0^u || [len(A)]_64 || [len(C)]_64)`, or
/// [`CryptoError::MessageTooLong`] when a bit length does not fit in 64 bits.
pub fn calculate_s(hash_subkey: HashSubkey, associated_data: &[u8], ciphertext: &[u8]) -> (result: CryptoResult<GhashResult>)
    ensures
        bit_length_fits_spec(associated_data@.len() as int) && bit_length_fits_spec(ciphertext@.len() as int)
            ==> (result matches Ok(s) && s@ == s_spec(hash_subkey@, associated_data@, ciphertext@)),
        !(bit_length_fits_spec(associated_data@.len() as int) && bit_length_fits_spec(ciphertext@.len() as int))
            ==> result is Err && result->Err_0 == CryptoError::MessageTooLong,
{
    let ghost h = hash_subkey@;
    let mut final_length_block = match length_block(associated_data.len(), ciphertext.len()) {
        Ok(block) => block,
        Err(error) => return Err(error),
    };
    let ghost last = final_length_block@;
    let mut ghash = Ghash::new(hash_subkey);
    update_zero_padded(&mut ghash, associated_data);
    update_zero_padded(&mut ghash, ciphertext);
    ghash.update_block(&final_length_block);
    wipe_array(&mut final_length_block);
    proof {
        lemma_fold_parts(h, padded_blocks_spec(associated_data@), padded_blocks_spec(ciphertext@), last);
    }
    Ok(ghash.finalize())
}

} // verus!
