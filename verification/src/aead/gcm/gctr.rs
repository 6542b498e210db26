//! `GCTR_K(ICB, X)` (NIST SP 800-38D §6.5, Algorithm 3): block `i` of `X` is XORed with
//! `CIPH_K(inc32^i(ICB))`, and a partial last block uses only the leftmost keystream bytes.

use vstd::prelude::*;

use super::block_cipher::GcmBlockCipher;
use super::counter::{CounterBlock, inc32_n_spec};
use crate::bits::lemma_xor_u8;
use crate::wipe::wipe_array;

verus! {

/// Bytes in a GCM block.
const BLOCK_BYTES: usize = 16;

/// `GCTR_K(icb, x)`.
pub open spec fn gctr_spec<C: GcmBlockCipher>(cipher: &C, icb: Seq<u8>, x: Seq<u8>) -> Seq<u8> {
    Seq::new(x.len(), |i: int| x[i] ^ cipher.spec_encrypt(inc32_n_spec(icb, (i / 16) as nat))[i % 16])
}

/// Applying `GCTR` twice with one initial counter block recovers the input.
pub proof fn lemma_gctr_twice<C: GcmBlockCipher>(cipher: &C, icb: Seq<u8>, x: Seq<u8>)
    ensures
        gctr_spec(cipher, icb, gctr_spec(cipher, icb, x)) == x,
{
    assert forall|i: int| 0 <= i < x.len() implies gctr_spec(cipher, icb, gctr_spec(cipher, icb, x))[i] == x[i] by {
        lemma_xor_u8(x[i], cipher.spec_encrypt(inc32_n_spec(icb, (i / 16) as nat))[i % 16], 0u8);
    }
    assert(gctr_spec(cipher, icb, gctr_spec(cipher, icb, x)) =~= x);
}

/// Position `16 * block + offset` lies in block `block` at `offset`.
proof fn lemma_position_in_block(block: int, offset: int)
    requires
        0 <= offset < 16,
    ensures
        (16 * block + offset) / 16 == block,
        (16 * block + offset) % 16 == offset,
{
    assert((16 * block + offset) / 16 == block) by (nonlinear_arith)
        requires 0 <= offset < 16;
    assert((16 * block + offset) % 16 == offset) by (nonlinear_arith)
        requires 0 <= offset < 16;
}

/// Apply `GCTR` in place, starting from `counter`.
pub fn apply<C: GcmBlockCipher>(cipher: &C, counter: CounterBlock, input_output: &mut [u8])
    ensures
        final(input_output)@ == gctr_spec(cipher, counter@, old(input_output)@),
{
    let mut counter = counter;
    let ghost icb = counter@;
    let ghost initial = input_output@;
    let length = input_output.len();
    let mut offset: usize = 0;
    while offset < length
        invariant
            length == input_output@.len(),
            initial.len() == length,
            offset <= length,
            offset < length ==> offset % 16 == 0 && counter@ == inc32_n_spec(icb, (offset / 16) as nat),
            forall|i: int| 0 <= i < offset ==> input_output@[i] == initial[i] ^ cipher.spec_encrypt(inc32_n_spec(icb, (i / 16) as nat))[i % 16],
            forall|i: int| offset <= i < length ==> input_output@[i] == initial[i],
        decreases length - offset,
    {
        let mut keystream = *counter.as_block();
        cipher.encrypt_block_in_place(&mut keystream);
        let remaining = length - offset;
        let chunk = if remaining < BLOCK_BYTES { remaining } else { BLOCK_BYTES };
        let mut index: usize = 0;
        while index < chunk
            invariant
                length == input_output@.len(),
                initial.len() == length,
                chunk == (if length - offset < 16 { (length - offset) as usize } else { 16usize }),
                offset + chunk <= length,
                offset % 16 == 0,
                keystream@ == cipher.spec_encrypt(inc32_n_spec(icb, (offset / 16) as nat)),
                index <= chunk,
                forall|i: int| 0 <= i < offset + index ==> input_output@[i] == initial[i] ^ cipher.spec_encrypt(inc32_n_spec(icb, (i / 16) as nat))[i % 16],
                forall|i: int| offset + index <= i < length ==> input_output@[i] == initial[i],
            decreases chunk - index,
        {
            proof {
                assert(offset == 16 * (offset / 16)) by (nonlinear_arith)
                    requires offset % 16 == 0;
                lemma_position_in_block((offset / 16) as int, index as int);
            }
            input_output[offset + index] = input_output[offset + index] ^ keystream[index];
            index = index + 1;
        }
        wipe_array(&mut keystream);
        let ghost previous = offset;
        offset = offset + chunk;
        if offset < length {
            assert(offset / 16 == previous / 16 + 1 && offset % 16 == 0) by (nonlinear_arith)
                requires offset == previous + 16, previous % 16 == 0;
            counter.increment();
        }
    }
    assert(input_output@ =~= gctr_spec(cipher, icb, initial));
}

} // verus!
