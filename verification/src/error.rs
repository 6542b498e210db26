//! The crate-wide error type.

use vstd::prelude::*;

verus! {

/// Every failure a primitive in this crate can report.
#[derive(Clone, Copy, Debug, PartialEq, Eq)]
pub enum CryptoError {
    /// A tag did not authenticate the exact nonce, associated data, and ciphertext.
    AuthenticationFailed,
    /// An input is longer than the construction supports.
    MessageTooLong,
    /// An output or configuration length cannot be represented or reserved.
    OutputTooLong,
    /// A byte string does not have the exact length a type requires.
    InvalidLength { name: &'static str, expected: usize, actual: usize },
    /// A private key is outside its permitted range.
    InvalidKey,
    /// A peer public key is malformed or produced a rejected result.
    InvalidPublicKey,
    /// A counter or sequence would repeat a value.
    CounterExhausted,
    /// A randomness source could not supply usable output.
    EntropyUnavailable,
    /// A stream object was left unusable by an earlier failure.
    StateInvalidated,
}

/// Result type used by fallible operations of this crate.
pub type CryptoResult<T> = core::result::Result<T, CryptoError>;

} // verus!
