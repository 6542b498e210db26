//! Supported lengths for `AEAD_CHACHA20_POLY1305`: the 32-bit counter starts at one, so a
//! plaintext covers at most `2^32 - 1` blocks of 64 bytes, `2^38 - 64` bytes.

use vstd::prelude::*;

use crate::error::{CryptoError, CryptoResult};

verus! {

/// Largest plaintext or ciphertext the counter can cover from block one.
pub const MAX_PAYLOAD_BYTES: u64 = 0x3f_ffff_ffc0;

/// Refuse a payload longer than `2^38 - 64` bytes with [`CryptoError::MessageTooLong`]; any
/// in-memory associated data has a 64-bit length.
pub fn validate_input_lengths(associated_data_len: usize, payload_len: usize) -> (result: CryptoResult<()>)
    ensures
        payload_len <= MAX_PAYLOAD_BYTES ==> result is Ok,
        payload_len > MAX_PAYLOAD_BYTES ==> result == Err::<(), CryptoError>(CryptoError::MessageTooLong),
{
    if payload_len as u64 > MAX_PAYLOAD_BYTES {
        return Err(CryptoError::MessageTooLong);
    }
    Ok(())
}

} // verus!
