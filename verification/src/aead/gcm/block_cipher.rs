//! The forward block permutation that GCM needs from its underlying 128-bit block cipher.

use vstd::prelude::*;

use crate::cipher::aes::aes128::forward::cipher_spec;
use crate::cipher::aes::aes128::{Aes128, Aes128Block};
use crate::cipher::aes::aes256::Aes256;

verus! {

/// A 128-bit block cipher's forward direction, as GCM uses it for the hash subkey, the counter
/// keystream, and the tag mask.
pub trait GcmBlockCipher {
    /// The forward permutation on one sixteen-byte block.
    spec fn spec_encrypt(&self, block: Seq<u8>) -> Seq<u8>;

    /// Encrypt one block in place.
    fn encrypt_block_in_place(&self, block: &mut [u8; 16])
        ensures
            final(block)@ == self.spec_encrypt(old(block)@),
    ;
}

impl GcmBlockCipher for Aes128 {
    open spec fn spec_encrypt(&self, block: Seq<u8>) -> Seq<u8> {
        cipher_spec(self.round_keys(), block)
    }

    fn encrypt_block_in_place(&self, block: &mut [u8; 16]) {
        let mut owned = Aes128Block::new(*block);
        self.encrypt_block(&mut owned);
        *block = owned.into_bytes();
    }
}

impl GcmBlockCipher for Aes256 {
    open spec fn spec_encrypt(&self, block: Seq<u8>) -> Seq<u8> {
        cipher_spec(self.round_keys(), block)
    }

    fn encrypt_block_in_place(&self, block: &mut [u8; 16]) {
        let mut owned = Aes128Block::new(*block);
        self.encrypt_block(&mut owned);
        *block = owned.into_bytes();
    }
}

} // verus!
