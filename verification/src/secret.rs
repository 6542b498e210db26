//! A fixed-size owner for secret bytes.

use vstd::prelude::*;

verus! {

/// An owned array of secret bytes that is exposed only through explicit calls.
pub struct SecretBytes<const N: usize> {
    bytes: [u8; N],
}

impl<const N: usize> View for SecretBytes<N> {
    type V = Seq<u8>;

    open spec fn view(&self) -> Seq<u8> {
        self.spec_bytes()@
    }
}

impl<const N: usize> SecretBytes<N> {
    /// The owned array.
    pub closed spec fn spec_bytes(&self) -> [u8; N] {
        self.bytes
    }

    /// Take ownership of `bytes`.
    pub fn new(bytes: [u8; N]) -> (secret: Self)
        ensures
            secret.spec_bytes() == bytes,
    {
        Self { bytes }
    }

    /// Borrow the secret bytes explicitly.
    pub fn expose_secret(&self) -> (bytes: &[u8; N])
        ensures
            *bytes == self.spec_bytes(),
    {
        &self.bytes
    }

    /// Transfer the bytes to the caller.
    pub fn into_inner(self) -> (bytes: [u8; N])
        ensures
            bytes == self.spec_bytes(),
    {
        self.bytes
    }
}

} // verus!
