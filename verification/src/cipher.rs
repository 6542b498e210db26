//! Low-level symmetric ciphers and the contracts they share.
//!
//! A raw block or stream cipher provides confidentiality only; it authenticates nothing.

pub mod aes;
pub mod chacha20;

use vstd::prelude::*;

use crate::error::CryptoResult;

verus! {

/// A fixed-width reversible block cipher: one keyed permutation of sixteen-byte blocks.
///
/// The trait models the permutation only. It supplies no padding, chaining, nonce, or integrity
/// property.
pub trait BlockCipher {
    /// The algorithm's fixed-size block type, viewed as its bytes.
    type Block: View<V = Seq<u8>>;

    /// The keyed forward permutation on the bytes of one block.
    spec fn spec_encrypt_block(&self, block: Seq<u8>) -> Seq<u8>;

    /// The keyed inverse permutation on the bytes of one block.
    spec fn spec_decrypt_block(&self, block: Seq<u8>) -> Seq<u8>;

    /// Encrypt one block in place.
    fn encrypt_block(&self, block: &mut Self::Block)
        ensures
            final(block)@ == self.spec_encrypt_block(old(block)@),
    ;

    /// Decrypt one block in place.
    fn decrypt_block(&self, block: &mut Self::Block)
        ensures
            final(block)@ == self.spec_decrypt_block(old(block)@),
    ;

    /// Decryption undoes encryption for every sixteen-byte block.
    proof fn lemma_decrypt_undoes_encrypt(&self, block: Seq<u8>)
        requires
            block.len() == 16,
        ensures
            self.spec_decrypt_block(self.spec_encrypt_block(block)) == block,
    ;

    /// Encryption undoes decryption for every sixteen-byte block.
    proof fn lemma_encrypt_undoes_decrypt(&self, block: Seq<u8>)
        requires
            block.len() == 16,
        ensures
            self.spec_encrypt_block(self.spec_decrypt_block(block)) == block,
    ;
}

/// A stateful cipher that XORs the next keystream bytes into a buffer.
pub trait StreamCipher {
    /// The stream's internal state is consistent.
    spec fn ready(&self) -> bool;

    /// XOR the next keystream bytes into `buffer`, or report that a keystream position would
    /// repeat.
    fn apply_keystream(&mut self, buffer: &mut [u8]) -> (result: CryptoResult<()>)
        requires
            old(self).ready(),
        ensures
            final(self).ready(),
    ;
}

} // verus!
