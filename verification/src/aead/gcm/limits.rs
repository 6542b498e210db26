//! GCM input limits (NIST SP 800-38D §5.2.1.1): a plaintext of at most `2^39 - 256` bits and
//! associated data of at most `2^64 - 1` bits.

use vstd::prelude::*;

use crate::error::{CryptoError, CryptoResult};

verus! {

/// The largest plaintext, `2^39 - 256` bits, in bytes.
pub const MAX_PAYLOAD_BYTES: u64 = 0xf_ffff_ffe0;

/// The largest associated data, `2^64 - 1` bits, in whole bytes.
pub const MAX_ASSOCIATED_DATA_BYTES: u64 = 0x1fff_ffff_ffff_ffff;

/// Both lengths are within the GCM limits.
pub open spec fn lengths_supported_spec(associated_data_len: int, payload_len: int) -> bool {
    associated_data_len <= MAX_ASSOCIATED_DATA_BYTES && payload_len <= MAX_PAYLOAD_BYTES
}

/// Accept lengths within the GCM limits; refuse others with [`CryptoError::MessageTooLong`].
pub fn validate_input_lengths(associated_data_len: usize, payload_len: usize) -> (result: CryptoResult<()>)
    ensures
        lengths_supported_spec(associated_data_len as int, payload_len as int) ==> result is Ok,
        !lengths_supported_spec(associated_data_len as int, payload_len as int)
            ==> result == Err::<(), CryptoError>(CryptoError::MessageTooLong),
{
    let associated_data_len = associated_data_len as u64;
    let payload_len = payload_len as u64;
    if associated_data_len > MAX_ASSOCIATED_DATA_BYTES || payload_len > MAX_PAYLOAD_BYTES {
        return Err(CryptoError::MessageTooLong);
    }
    Ok(())
}

} // verus!
