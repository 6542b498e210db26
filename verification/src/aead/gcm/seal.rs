//! GCM authenticated encryption (NIST SP 800-38D §7.1, Algorithm 4) with a 96-bit IV and a
//! full-length tag.

use vstd::prelude::*;

use super::authentication::{calculate_s, s_spec};
use super::block_cipher::GcmBlockCipher;
use super::counter::inc32_spec;
use super::gctr::{apply, gctr_spec, lemma_gctr_twice};
use super::limits::{lengths_supported_spec, validate_input_lengths};
use super::setup::{GcmIv96, PreCounterBlock, derive_hash_subkey, hash_subkey_spec, pre_counter_spec};
use super::tag::{FullTag, TAG_BYTES, mask};
use crate::error::{CryptoError, CryptoResult};

verus! {

/// `C = GCTR_K(inc32(J_0), P)`.
pub open spec fn gcm_ciphertext_spec<C: GcmBlockCipher>(cipher: &C, iv: Seq<u8>, plaintext: Seq<u8>) -> Seq<u8> {
    gctr_spec(cipher, inc32_spec(pre_counter_spec(iv)), plaintext)
}

/// `T = GCTR_K(J_0, S)` for associated data `a` and ciphertext `c`.
pub open spec fn gcm_tag_spec<C: GcmBlockCipher>(cipher: &C, iv: Seq<u8>, a: Seq<u8>, c: Seq<u8>) -> Seq<u8> {
    gctr_spec(cipher, pre_counter_spec(iv), s_spec(hash_subkey_spec(cipher), a, c))
}

/// Decrypting the ciphertext of a plaintext under the same key and IV gives the plaintext back.
pub proof fn lemma_decryption_inverts_encryption<C: GcmBlockCipher>(cipher: &C, iv: Seq<u8>, plaintext: Seq<u8>)
    ensures
        gctr_spec(cipher, inc32_spec(pre_counter_spec(iv)), gcm_ciphertext_spec(cipher, iv, plaintext)) == plaintext,
{
    lemma_gctr_twice(cipher, inc32_spec(pre_counter_spec(iv)), plaintext);
}

/// A ciphertext and its full tag.
pub struct EncryptionResult {
    ciphertext: Vec<u8>,
    tag: FullTag,
}

impl EncryptionResult {
    /// The ciphertext bytes.
    pub closed spec fn spec_ciphertext(&self) -> Seq<u8> {
        self.ciphertext@
    }

    /// The tag bytes.
    pub closed spec fn spec_tag(&self) -> Seq<u8> {
        self.tag@
    }

    /// Borrow the ciphertext.
    pub fn ciphertext(&self) -> (ciphertext: &[u8])
        ensures
            ciphertext@ == self.spec_ciphertext(),
    {
        self.ciphertext.as_slice()
    }

    /// Borrow the tag.
    pub fn tag(&self) -> (tag: &FullTag)
        ensures
            tag@ == self.spec_tag(),
    {
        &self.tag
    }

    /// Transfer the ciphertext and the tag bytes.
    pub fn into_parts(self) -> (parts: (Vec<u8>, [u8; TAG_BYTES]))
        ensures
            parts.0@ == self.spec_ciphertext(),
            parts.1@ == self.spec_tag(),
    {
        (self.ciphertext, self.tag.into_bytes())
    }
}

/// Encrypt `plaintext` and authenticate it with `associated_data`.
///
/// Fails with [`CryptoError::MessageTooLong`] exactly when a length is beyond the GCM limits.
pub fn seal<C: GcmBlockCipher>(cipher: &C, iv: &GcmIv96, associated_data: &[u8], plaintext: &[u8]) -> (result: CryptoResult<EncryptionResult>)
    ensures
        lengths_supported_spec(associated_data@.len() as int, plaintext@.len() as int) ==> (result matches Ok(sealed)
            && sealed.spec_ciphertext() == gcm_ciphertext_spec(cipher, iv@, plaintext@)
            && sealed.spec_tag() == gcm_tag_spec(cipher, iv@, associated_data@, sealed.spec_ciphertext())),
        !lengths_supported_spec(associated_data@.len() as int, plaintext@.len() as int)
            ==> result is Err && result->Err_0 == CryptoError::MessageTooLong,
{
    match validate_input_lengths(associated_data.len(), plaintext.len()) {
        Ok(()) => {},
        Err(error) => return Err(error),
    }
    let hash_subkey = derive_hash_subkey(cipher);
    let pre_counter = PreCounterBlock::from_iv(iv);
    let mut ciphertext = vstd::slice::slice_to_vec(plaintext);
    apply(cipher, pre_counter.payload_counter(), ciphertext.as_mut_slice());
    let ghash_result = match calculate_s(hash_subkey, associated_data, ciphertext.as_slice()) {
        Ok(s) => s,
        Err(error) => return Err(error),
    };
    let tag = mask(cipher, pre_counter, ghash_result);
    Ok(EncryptionResult { ciphertext, tag })
}

} // verus!
