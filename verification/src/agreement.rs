//! Key agreement: each party combines its private key with the peer's public key, and both
//! arrive at the same shared secret, which a protocol then feeds into its key schedule.

pub mod ecdh_p256;
pub mod ecdh_p384;
pub mod x25519;
pub mod x448;

use vstd::prelude::*;

use crate::error::CryptoResult;

verus! {

/// The bytes of an agreement outcome: the shared secret, or the error.
pub open spec fn agreed_outcome<S: View<V = Seq<u8>>>(result: CryptoResult<S>) -> CryptoResult<Seq<u8>> {
    match result {
        Ok(secret) => Ok(secret@),
        Err(error) => Err(error),
    }
}

/// A public-key agreement primitive such as an elliptic-curve Diffie-Hellman function.
///
/// Implementations keep private keys and shared secrets in secret owners, validate peer public
/// keys as their standard requires, and state any rejection rule in `agree_spec`.
pub trait KeyAgreement {
    /// Secret private-key material, viewed as its bytes.
    type PrivateKey: View<V = Seq<u8>>;
    /// The encoded public key, viewed as its bytes.
    type PublicKey: View<V = Seq<u8>>;
    /// The agreement result, viewed as its bytes.
    type SharedSecret: View<V = Seq<u8>>;

    /// The public key that belongs to a private key.
    spec fn public_key_spec(private_key: Seq<u8>) -> Seq<u8>;

    /// The shared secret of a private key and a peer public key, or the error.
    spec fn agree_spec(private_key: Seq<u8>, peer_public_key: Seq<u8>) -> CryptoResult<Seq<u8>>;

    /// Derive the public key corresponding to `private_key`.
    fn public_key(private_key: &Self::PrivateKey) -> (public_key: Self::PublicKey)
        ensures
            public_key@ == Self::public_key_spec(private_key@),
    ;

    /// Combine a private key with a peer public key.
    fn agree(private_key: &Self::PrivateKey, peer_public_key: &Self::PublicKey) -> (result: CryptoResult<Self::SharedSecret>)
        ensures
            agreed_outcome(result) == Self::agree_spec(private_key@, peer_public_key@),
    ;
}

} // verus!
