//! GCM authenticated decryption (NIST SP 800-38D §7.2, Algorithm 5). The tag is computed and
//! compared before any plaintext exists.

use vstd::prelude::*;

use super::authentication::calculate_s;
use super::block_cipher::GcmBlockCipher;
use super::counter::inc32_spec;
use super::gctr::{apply, gctr_spec};
use super::limits::{lengths_supported_spec, validate_input_lengths};
use super::seal::gcm_tag_spec;
use super::setup::{GcmIv96, PreCounterBlock, derive_hash_subkey, pre_counter_spec};
use super::tag::{TAG_BYTES, mask};
use crate::error::{CryptoError, CryptoResult};

verus! {

/// Authenticate `ciphertext` with `associated_data` and `received_tag`, then decrypt it.
///
/// Fails with [`CryptoError::MessageTooLong`] when a length is beyond the GCM limits, and
/// otherwise with [`CryptoError::AuthenticationFailed`] exactly when the tag differs from the
/// one computed; no plaintext is produced then.
pub fn open<C: GcmBlockCipher>(
    cipher: &C,
    iv: &GcmIv96,
    associated_data: &[u8],
    ciphertext: &[u8],
    received_tag: &[u8; TAG_BYTES],
) -> (result: CryptoResult<Vec<u8>>)
    ensures
        !lengths_supported_spec(associated_data@.len() as int, ciphertext@.len() as int)
            ==> result is Err && result->Err_0 == CryptoError::MessageTooLong,
        lengths_supported_spec(associated_data@.len() as int, ciphertext@.len() as int)
            && received_tag@ != gcm_tag_spec(cipher, iv@, associated_data@, ciphertext@)
            ==> result is Err && result->Err_0 == CryptoError::AuthenticationFailed,
        lengths_supported_spec(associated_data@.len() as int, ciphertext@.len() as int)
            && received_tag@ == gcm_tag_spec(cipher, iv@, associated_data@, ciphertext@)
            ==> (result matches Ok(plaintext)
                && plaintext@ == gctr_spec(cipher, inc32_spec(pre_counter_spec(iv@)), ciphertext@)),
{
    match validate_input_lengths(associated_data.len(), ciphertext.len()) {
        Ok(()) => {},
        Err(error) => return Err(error),
    }
    let hash_subkey = derive_hash_subkey(cipher);
    let pre_counter = PreCounterBlock::from_iv(iv);
    let ghash_result = match calculate_s(hash_subkey, associated_data, ciphertext) {
        Ok(s) => s,
        Err(error) => return Err(error),
    };
    let candidate_tag = mask(cipher, pre_counter, ghash_result);
    match candidate_tag.verify(received_tag) {
        Ok(()) => {},
        Err(error) => return Err(error),
    }
    let mut plaintext = vstd::slice::slice_to_vec(ciphertext);
    let pre_counter = PreCounterBlock::from_iv(iv);
    apply(cipher, pre_counter.payload_counter(), plaintext.as_mut_slice());
    Ok(plaintext)
}

} // verus!
