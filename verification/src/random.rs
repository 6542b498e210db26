//! The caller-selected source of randomness used to generate keys and nonces.

use vstd::prelude::*;

use crate::error::CryptoResult;

verus! {

/// A source of random bytes supplied by the caller (an operating-system generator, a hardware
/// generator, or a deterministic source in tests).
///
/// An implementation keeps, as its specification, the log of every fill it has performed: the
/// bytes it left in the buffer and the answer it gave.
pub trait RandomSource {
    /// Every fill performed by this source, in order, with the bytes it left and its answer.
    /// Verified code sees only what `fill_bytes` states of it. The empty default body exists
    /// so that implementations written outside verified code compile; it does not meet the
    /// contract of `fill_bytes`, and such an implementation is not checked against it.
    closed spec fn fills(&self) -> Seq<(Seq<u8>, CryptoResult<()>)> {
        Seq::empty()
    }

    /// Fill every byte of `bytes`, or report why the source cannot.
    fn fill_bytes(&mut self, bytes: &mut [u8]) -> (result: CryptoResult<()>)
        ensures
            final(bytes)@.len() == old(bytes)@.len(),
            final(self).fills() == old(self).fills().push((final(bytes)@, result)),
    ;
}

/// What a generated value is made from one fill: its bytes when the source succeeded, else the
/// source's error.
pub open spec fn filled_outcome(fill: (Seq<u8>, CryptoResult<()>)) -> CryptoResult<Seq<u8>> {
    match fill.1 {
        Ok(_) => Ok(fill.0),
        Err(error) => Err(error),
    }
}

/// The bytes of a generated value, or the error.
pub open spec fn generated_outcome<T: View<V = Seq<u8>>>(result: CryptoResult<T>) -> CryptoResult<Seq<u8>> {
    match result {
        Ok(value) => Ok(value@),
        Err(error) => Err(error),
    }
}

} // verus!
