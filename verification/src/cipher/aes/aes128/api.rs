//! The public AES-128 block-cipher boundary: distinct key and block types, and one expanded,
//! non-cloneable key schedule.
//!
//! This is the block permutation only. It supplies no nonce, mode of operation, integrity,
//! padding, or multi-block message API.

use vstd::prelude::*;

use super::forward::{cipher_spec, encrypt_block};
use super::inverse::{decrypt_block, inv_cipher_spec, lemma_cipher_undoes_inverse_cipher, lemma_inverse_cipher_undoes_cipher};
use super::key::RoundKeySource;
use super::key_schedule::{KeySchedule, expanded_round_keys};
use super::state::BLOCK_LEN;
use crate::cipher::BlockCipher;
use crate::secret::SecretBytes;

verus! {

/// A distinct, owned 128-bit AES-128 key. Its only operation is construction; it is consumed by
/// [`Aes128::new`].
pub struct Aes128Key {
    bytes: SecretBytes<BLOCK_LEN>,
}

impl View for Aes128Key {
    type V = Seq<u8>;

    open spec fn view(&self) -> Seq<u8> {
        self.spec_secret()@
    }
}

impl Aes128Key {
    /// The owned key bytes.
    pub closed spec fn spec_secret(&self) -> SecretBytes<BLOCK_LEN> {
        self.bytes
    }

    /// Take ownership of exactly sixteen key bytes.
    pub fn new(bytes: [u8; BLOCK_LEN]) -> (key: Self)
        ensures
            key@ == bytes@,
    {
        Self { bytes: SecretBytes::new(bytes) }
    }

    /// The redacted text that stands for this key in diagnostics.
    pub fn debug_text(&self) -> (text: &'static str)
        ensures
            text@ == "Aes128Key([REDACTED])"@,
    {
        "Aes128Key([REDACTED])"
    }
}

/// One owned 128-bit AES input or output block.
pub struct Aes128Block {
    bytes: [u8; BLOCK_LEN],
}

impl View for Aes128Block {
    type V = Seq<u8>;

    open spec fn view(&self) -> Seq<u8> {
        self.spec_bytes()@
    }
}

impl AsRef<[u8]> for Aes128Block {
    /// Borrow the block bytes as a slice.
    fn as_ref(&self) -> (bytes: &[u8])
        ensures
            bytes@ == self@,
    {
        self.bytes.as_slice()
    }
}

impl AsMut<[u8]> for Aes128Block {
    /// Borrow the block bytes mutably as a slice.
    fn as_mut(&mut self) -> (bytes: &mut [u8])
        ensures
            bytes@ == old(self)@,
            final(self)@ == final(bytes)@,
    {
        &mut self.bytes
    }
}

impl Aes128Block {
    /// The block's bytes.
    pub closed spec fn spec_bytes(&self) -> [u8; BLOCK_LEN] {
        self.bytes
    }

    /// Take ownership of exactly one complete AES block.
    pub fn new(bytes: [u8; BLOCK_LEN]) -> (block: Self)
        ensures
            block.spec_bytes() == bytes,
    {
        Self { bytes }
    }

    /// Borrow all sixteen current block bytes.
    pub fn as_bytes(&self) -> (bytes: &[u8; BLOCK_LEN])
        ensures
            *bytes == self.spec_bytes(),
    {
        &self.bytes
    }

    /// Mutable access for the AES-256 implementation, which shares this block type.
    pub(in crate::cipher::aes) fn bytes_mut(&mut self) -> (bytes: &mut [u8; BLOCK_LEN])
        ensures
            *bytes == old(self).spec_bytes(),
            final(self).spec_bytes() == *final(bytes),
    {
        &mut self.bytes
    }

    /// Consume the block and return its bytes to the caller.
    pub fn into_bytes(self) -> (bytes: [u8; BLOCK_LEN])
        ensures
            bytes == self.spec_bytes(),
    {
        self.bytes
    }
}

/// AES-128 with one expanded key schedule. Constructing it performs FIPS 197 `KEYEXPANSION()`
/// once; it can then transform any number of independent blocks.
pub struct Aes128 {
    schedule: KeySchedule,
}

impl Aes128 {
    /// The eleven round keys of the expanded schedule.
    pub closed spec fn round_keys(&self) -> Seq<Seq<u8>> {
        self.schedule.spec_round_keys()
    }

    /// Consume one AES-128 key and expand it into the eleven round keys.
    pub fn new(key: Aes128Key) -> (cipher: Self)
        ensures
            cipher.round_keys() == expanded_round_keys(key@, 4, 10),
    {
        let Aes128Key { bytes } = key;
        let schedule = KeySchedule::expand(bytes.expose_secret());
        Self { schedule }
    }

    /// Apply FIPS 197 `CIPHER()` to one complete block in place.
    pub fn encrypt_block(&self, block: &mut Aes128Block)
        ensures
            final(block)@ == cipher_spec(self.round_keys(), old(block)@),
    {
        encrypt_block(&mut block.bytes, &self.schedule);
    }

    /// Apply FIPS 197 `INVCIPHER()` to one complete block in place.
    pub fn decrypt_block(&self, block: &mut Aes128Block)
        ensures
            final(block)@ == inv_cipher_spec(self.round_keys(), old(block)@),
    {
        decrypt_block(&mut block.bytes, &self.schedule);
    }

    /// The redacted text that stands for this cipher in diagnostics.
    pub fn debug_text(&self) -> (text: &'static str)
        ensures
            text@ == "Aes128([REDACTED KEY SCHEDULE])"@,
    {
        "Aes128([REDACTED KEY SCHEDULE])"
    }
}

impl BlockCipher for Aes128 {
    type Block = Aes128Block;

    open spec fn spec_encrypt_block(&self, block: Seq<u8>) -> Seq<u8> {
        cipher_spec(self.round_keys(), block)
    }

    open spec fn spec_decrypt_block(&self, block: Seq<u8>) -> Seq<u8> {
        inv_cipher_spec(self.round_keys(), block)
    }

    fn encrypt_block(&self, block: &mut Aes128Block) {
        Aes128::encrypt_block(self, block);
    }

    fn decrypt_block(&self, block: &mut Aes128Block) {
        Aes128::decrypt_block(self, block);
    }

    proof fn lemma_decrypt_undoes_encrypt(&self, block: Seq<u8>) {
        lemma_inverse_cipher_undoes_cipher(self.round_keys(), block);
    }

    proof fn lemma_encrypt_undoes_decrypt(&self, block: Seq<u8>) {
        lemma_cipher_undoes_inverse_cipher(self.round_keys(), block);
    }
}

} // verus!
