//! The public AES-256 block-cipher boundary. Blocks are the sixteen-byte AES-128 block type.

use vstd::prelude::*;

use super::key_schedule::{KEY_LEN, KeySchedule};
use crate::cipher::BlockCipher;
use crate::cipher::aes::aes128::forward::{cipher_spec, encrypt_block};
use crate::cipher::aes::aes128::inverse::{
    decrypt_block, inv_cipher_spec, lemma_cipher_undoes_inverse_cipher, lemma_inverse_cipher_undoes_cipher,
};
use crate::cipher::aes::aes128::key::RoundKeySource;
use crate::cipher::aes::aes128::key_schedule::expanded_round_keys;
use crate::cipher::aes::aes128::Aes128Block;
use crate::secret::SecretBytes;

verus! {

/// A distinct, owned 256-bit AES-256 key, consumed by [`Aes256::new`].
pub struct Aes256Key {
    bytes: SecretBytes<KEY_LEN>,
}

impl View for Aes256Key {
    type V = Seq<u8>;

    open spec fn view(&self) -> Seq<u8> {
        self.spec_secret()@
    }
}

impl Aes256Key {
    /// Bytes in an AES-256 key.
    pub const LEN: usize = 32;

    /// The owned key bytes.
    pub closed spec fn spec_secret(&self) -> SecretBytes<KEY_LEN> {
        self.bytes
    }

    /// Take ownership of exactly thirty-two key bytes.
    pub fn new(bytes: [u8; KEY_LEN]) -> (key: Self)
        ensures
            key@ == bytes@,
    {
        Self { bytes: SecretBytes::new(bytes) }
    }

    /// The redacted text that stands for this key in diagnostics.
    pub fn debug_text(&self) -> (text: &'static str)
        ensures
            text@ == "Aes256Key([REDACTED])"@,
    {
        "Aes256Key([REDACTED])"
    }
}

/// An AES-256 block: the same sixteen-byte block type as AES-128.
pub type Aes256Block = Aes128Block;

/// AES-256 with one expanded key schedule of fifteen round keys.
pub struct Aes256 {
    schedule: KeySchedule,
}

impl Aes256 {
    /// The fifteen round keys of the expanded schedule.
    pub closed spec fn round_keys(&self) -> Seq<Seq<u8>> {
        self.schedule.spec_round_keys()
    }

    /// Consume one AES-256 key and expand it.
    pub fn new(key: Aes256Key) -> (cipher: Self)
        ensures
            cipher.round_keys() == expanded_round_keys(key@, 8, 14),
    {
        let Aes256Key { bytes } = key;
        Self { schedule: KeySchedule::expand(bytes.expose_secret()) }
    }

    /// Apply FIPS 197 `CIPHER()` with fourteen rounds to one block in place.
    pub fn encrypt_block(&self, block: &mut Aes256Block)
        ensures
            final(block)@ == cipher_spec(self.round_keys(), old(block)@),
    {
        encrypt_block(block.bytes_mut(), &self.schedule);
    }

    /// Apply FIPS 197 `INVCIPHER()` with fourteen rounds to one block in place.
    pub fn decrypt_block(&self, block: &mut Aes256Block)
        ensures
            final(block)@ == inv_cipher_spec(self.round_keys(), old(block)@),
    {
        decrypt_block(block.bytes_mut(), &self.schedule);
    }

    /// The redacted text that stands for this cipher in diagnostics.
    pub fn debug_text(&self) -> (text: &'static str)
        ensures
            text@ == "Aes256([REDACTED KEY SCHEDULE])"@,
    {
        "Aes256([REDACTED KEY SCHEDULE])"
    }
}

impl BlockCipher for Aes256 {
    type Block = Aes256Block;

    open spec fn spec_encrypt_block(&self, block: Seq<u8>) -> Seq<u8> {
        cipher_spec(self.round_keys(), block)
    }

    open spec fn spec_decrypt_block(&self, block: Seq<u8>) -> Seq<u8> {
        inv_cipher_spec(self.round_keys(), block)
    }

    fn encrypt_block(&self, block: &mut Aes256Block) {
        Aes256::encrypt_block(self, block);
    }

    fn decrypt_block(&self, block: &mut Aes256Block) {
        Aes256::decrypt_block(self, block);
    }

    proof fn lemma_decrypt_undoes_encrypt(&self, block: Seq<u8>) {
        lemma_inverse_cipher_undoes_cipher(self.round_keys(), block);
    }

    proof fn lemma_encrypt_undoes_decrypt(&self, block: Seq<u8>) {
        lemma_cipher_undoes_inverse_cipher(self.round_keys(), block);
    }
}

} // verus!
