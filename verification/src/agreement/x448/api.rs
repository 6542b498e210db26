//! The typed X448 boundary: keys, the all-zero rejection, and secret exposure.
//!
//! A public key is `X448(private, 5)`. Agreement applies X448 to the private key and the peer's
//! coordinate and rejects the all-zero result (RFC 7748 §6.2), which marks a small-order input,
//! with `InvalidPublicKey`. Public keys are accepted at any value, non-canonical ones and points
//! on the twist included, as RFC 7748 §5 requires.

use vstd::prelude::*;
use vstd::std_specs::convert::TryFromSpecImpl;

use super::ladder::{decode_coordinate, scalar_multiply, x448_value};
use crate::agreement::KeyAgreement;
use crate::bits::{le_bytes_spec, le_spec, lemma_le_bytes_of_le, lemma_le_concat, lemma_le_zero, lemma_le_zeros, lemma_or_difference, lemma_xor_u8};
use crate::error::{CryptoError, CryptoResult};
use crate::secret::SecretBytes;
use crate::wipe::wipe_array;

verus! {

/// Bytes in an X448 scalar, coordinate, and result.
pub const X448_BYTES: usize = 56;

/// The base u-coordinate five, little-endian.
pub const BASE_COORDINATE: [u8; 56] = [
    5, 0, 0, 0, 0, 0, 0, 0, 0, 0, 0, 0, 0, 0, 0, 0, 0, 0, 0, 0, 0, 0, 0, 0, 0, 0, 0, 0,
    0, 0, 0, 0, 0, 0, 0, 0, 0, 0, 0, 0, 0, 0, 0, 0, 0, 0, 0, 0, 0, 0, 0, 0, 0, 0, 0, 0,
];

/// `X448(k, u)`: the 56-byte little-endian encoding of the ladder's result.
pub open spec fn x448_spec(scalar: Seq<u8>, u: Seq<u8>) -> Seq<u8> {
    le_bytes_spec(x448_value(scalar, u), 56)
}

/// Agreement: the X448 result, unless it is zero, which is refused as an invalid public key.
pub open spec fn x448_agree_spec(private_key: Seq<u8>, peer_public_key: Seq<u8>) -> CryptoResult<Seq<u8>> {
    if x448_value(private_key, peer_public_key) == 0 {
        Err(CryptoError::InvalidPublicKey)
    } else {
        Ok(x448_spec(private_key, peer_public_key))
    }
}

/// Encodings of the same coordinate give the same result: a value at or above `p` counts as its
/// residue.
pub proof fn lemma_equivalent_coordinates_agree(private_key: Seq<u8>, u: Seq<u8>, v: Seq<u8>)
    requires
        decode_coordinate(u) == decode_coordinate(v),
    ensures
        x448_spec(private_key, u) == x448_spec(private_key, v),
        x448_agree_spec(private_key, u) == x448_agree_spec(private_key, v),
{
}

/// One owned 56-byte private scalar input, stored as given; scalar preparation happens inside
/// every X448 operation.
pub struct X448PrivateKey {
    bytes: SecretBytes<56>,
}

impl View for X448PrivateKey {
    type V = Seq<u8>;

    open spec fn view(&self) -> Seq<u8> {
        self.spec_bytes()
    }
}

impl X448PrivateKey {
    /// Size of the private scalar input in bytes.
    pub const LEN: usize = X448_BYTES;

    /// The owned bytes.
    pub closed spec fn spec_bytes(&self) -> Seq<u8> {
        self.bytes@
    }

    /// Take ownership of 56 random bytes for use as an X448 scalar input.
    pub fn new(bytes: [u8; 56]) -> (key: Self)
        ensures
            key@ == bytes@,
    {
        Self { bytes: SecretBytes::new(bytes) }
    }

    /// The redacted debugging text of a private key.
    pub fn debug_text(&self) -> (text: &'static str)
        ensures
            text@ == "X448PrivateKey([REDACTED])"@,
    {
        "X448PrivateKey([REDACTED])"
    }
}

/// One received or derived 56-byte Montgomery u-coordinate, kept exactly as encoded.
#[derive(Clone, Copy, Debug, PartialEq, Eq)]
pub struct X448PublicKey([u8; 56]);

impl View for X448PublicKey {
    type V = Seq<u8>;

    open spec fn view(&self) -> Seq<u8> {
        self.spec_bytes()@
    }
}

impl AsRef<[u8]> for X448PublicKey {
    /// Borrow the public key bytes as a slice.
    fn as_ref(&self) -> (bytes: &[u8])
        ensures
            bytes@ == self@,
    {
        self.0.as_slice()
    }
}

impl X448PublicKey {
    /// Size of an encoded public coordinate in bytes.
    pub const LEN: usize = X448_BYTES;

    /// The owned array.
    pub closed spec fn spec_bytes(&self) -> [u8; 56] {
        self.0
    }

    /// Take ownership of one exact-size public coordinate.
    pub fn new(bytes: [u8; 56]) -> (key: Self)
        ensures
            key@ == bytes@,
    {
        Self(bytes)
    }

    /// Borrow the bytes, not canonicalized.
    pub fn as_bytes(&self) -> (bytes: &[u8; 56])
        ensures
            bytes@ == self@,
    {
        &self.0
    }

    /// Return the bytes, not canonicalized.
    pub fn into_bytes(self) -> (bytes: [u8; 56])
        ensures
            bytes@ == self@,
    {
        self.0
    }

    /// The public key a wire slice parses to, or the length error.
    pub open spec fn parsed_spec(bytes: Seq<u8>) -> CryptoResult<Self> {
        if bytes.len() == 56 {
            Ok(choose|candidate: Self| candidate@ == bytes)
        } else {
            Err(CryptoError::InvalidLength { name: "X448 public key", expected: 56, actual: bytes.len() as usize })
        }
    }

    /// Copy an exact 56-byte wire slice into a public key.
    pub fn from_slice(bytes: &[u8]) -> (result: CryptoResult<Self>)
        ensures
            result == Self::parsed_spec(bytes@),
    {
        if bytes.len() != X448_BYTES {
            return Err(CryptoError::InvalidLength { name: "X448 public key", expected: X448_BYTES, actual: bytes.len() });
        }
        let mut exact = [0u8; 56];
        let mut index: usize = 0;
        while index < X448_BYTES
            invariant
                bytes@.len() == 56,
                index <= 56,
                forall|j: int| 0 <= j < index ==> exact[j] == bytes@[j],
            decreases 56 - index,
        {
            exact[index] = bytes[index];
            index = index + 1;
        }
        let key = Self(exact);
        assert(key@ =~= bytes@);
        proof {
            let chosen = choose|candidate: Self| candidate@ == bytes@;
            assert(chosen.0 =~= key.0);
        }
        Ok(key)
    }
}

impl<'a> TryFrom<&'a [u8]> for X448PublicKey {
    type Error = CryptoError;

    fn try_from(bytes: &'a [u8]) -> (result: CryptoResult<Self>) {
        Self::from_slice(bytes)
    }
}

impl<'a> TryFromSpecImpl<&'a [u8]> for X448PublicKey {
    open spec fn obeys_try_from_spec() -> bool {
        true
    }

    open spec fn try_from_spec(bytes: &'a [u8]) -> CryptoResult<Self> {
        Self::parsed_spec(bytes@)
    }
}

/// A validated, nonzero shared secret, exposed only explicitly.
pub struct X448SharedSecret {
    bytes: SecretBytes<56>,
}

impl View for X448SharedSecret {
    type V = Seq<u8>;

    open spec fn view(&self) -> Seq<u8> {
        self.spec_bytes()
    }
}

impl X448SharedSecret {
    /// Size of a shared secret in bytes.
    pub const LEN: usize = X448_BYTES;

    /// The owned bytes.
    pub closed spec fn spec_bytes(&self) -> Seq<u8> {
        self.bytes@
    }

    /// Borrow the shared secret for immediate use by a key-derivation function.
    pub fn expose_secret(&self) -> (bytes: &[u8; 56])
        ensures
            bytes@ == self@,
    {
        self.bytes.expose_secret()
    }

    /// Transfer the bytes to the caller.
    pub fn into_inner(self) -> (bytes: [u8; 56])
        ensures
            bytes@ == self@,
    {
        self.bytes.into_inner()
    }

    /// The redacted debugging text of a shared secret.
    pub fn debug_text(&self) -> (text: &'static str)
        ensures
            text@ == "X448SharedSecret([REDACTED])"@,
    {
        "X448SharedSecret([REDACTED])"
    }
}

/// Whether any byte is nonzero, by OR-ing every byte so the work does not depend on where.
fn any_nonzero(bytes: &[u8; 56]) -> (nonzero: bool)
    ensures
        nonzero == !(forall|i: int| 0 <= i < 56 ==> bytes@[i] == 0),
{
    let mut combined: u8 = 0;
    let mut index: usize = 0;
    while index < 56
        invariant
            index <= 56,
            (combined == 0) == (forall|j: int| 0 <= j < index ==> bytes@[j] == 0),
        decreases 56 - index,
    {
        proof {
            lemma_xor_u8(bytes[index as int], 0, 0);
            lemma_or_difference(combined, bytes[index as int], 0);
        }
        combined = combined | bytes[index];
        index = index + 1;
    }
    combined != 0
}

/// RFC 7748 X448 public-key derivation and checked Diffie-Hellman agreement.
#[derive(Clone, Copy, Debug, Default)]
pub struct X448;

impl X448 {
    /// Derive the public coordinate `X448(private_key, 5)`.
    pub fn public_key(private_key: &X448PrivateKey) -> (public_key: X448PublicKey)
        ensures
            public_key@ == x448_spec(private_key@, BASE_COORDINATE@),
    {
        let output = scalar_multiply(private_key.bytes.expose_secret(), &BASE_COORDINATE);
        proof {
            lemma_le_bytes_of_le(output@);
        }
        X448PublicKey::new(output)
    }

    /// Calculate a shared secret, refusing the all-zero result; a refused result is cleared.
    pub fn agree(private_key: &X448PrivateKey, peer_public_key: &X448PublicKey) -> (result: CryptoResult<X448SharedSecret>)
        ensures
            match result {
                Ok(secret) => x448_agree_spec(private_key@, peer_public_key@) == Ok::<Seq<u8>, CryptoError>(secret@),
                Err(error) => x448_agree_spec(private_key@, peer_public_key@) == Err::<Seq<u8>, CryptoError>(error),
            },
    {
        let mut shared_bytes = scalar_multiply(private_key.bytes.expose_secret(), peer_public_key.as_bytes());
        proof {
            lemma_le_bytes_of_le(shared_bytes@);
            lemma_le_zero(shared_bytes@);
        }
        if !any_nonzero(&shared_bytes) {
            wipe_array(&mut shared_bytes);
            return Err(CryptoError::InvalidPublicKey);
        }
        Ok(X448SharedSecret { bytes: SecretBytes::new(shared_bytes) })
    }
}

impl KeyAgreement for X448 {
    type PrivateKey = X448PrivateKey;
    type PublicKey = X448PublicKey;
    type SharedSecret = X448SharedSecret;

    open spec fn public_key_spec(private_key: Seq<u8>) -> Seq<u8> {
        x448_spec(private_key, BASE_COORDINATE@)
    }

    open spec fn agree_spec(private_key: Seq<u8>, peer_public_key: Seq<u8>) -> CryptoResult<Seq<u8>> {
        x448_agree_spec(private_key, peer_public_key)
    }

    fn public_key(private_key: &X448PrivateKey) -> (public_key: X448PublicKey) {
        X448::public_key(private_key)
    }

    fn agree(private_key: &X448PrivateKey, peer_public_key: &X448PublicKey) -> (result: CryptoResult<X448SharedSecret>) {
        X448::agree(private_key, peer_public_key)
    }
}

/// The base coordinate decodes to 5: its first byte is 5 and the other 55 are zero.
proof fn lemma_base_coordinate_decodes()
    ensures
        BASE_COORDINATE@ == seq![5u8] + Seq::new(55, |i: int| 0u8),
        decode_coordinate(BASE_COORDINATE@) == 5,
{
    let zeros = Seq::new(55, |i: int| 0u8);
    assert(BASE_COORDINATE@ =~= seq![5u8] + zeros);
    lemma_le_concat(seq![5u8], zeros);
    lemma_le_zeros(55);
    assert(seq![5u8].drop_first() =~= Seq::<u8>::empty());
    assert(le_spec(seq![5u8]) == 5) by {
        reveal_with_fuel(le_spec, 2);
        assert(le_spec(Seq::<u8>::empty()) == 0);
    }
    assert(crate::bits::pow256_spec(1) == 256) by {
        reveal_with_fuel(crate::bits::pow256_spec, 2);
    }
}

/// A public key is the X448 function at the base point 5: for every encoding `u` of the
/// coordinate 5, both the algorithm's own derivation and the [`KeyAgreement`] one equal
/// `X448(k, u)`, and agreeing with such a `u` gives the public key whenever the agreement is
/// accepted.
pub proof fn lemma_public_key_is_agreement_with_base(private_key: Seq<u8>, u: Seq<u8>)
    requires
        decode_coordinate(u) == 5,
    ensures
        <X448 as KeyAgreement>::public_key_spec(private_key) == x448_spec(private_key, u),
        x448_spec(private_key, BASE_COORDINATE@) == x448_spec(private_key, u),
        <X448 as KeyAgreement>::agree_spec(private_key, u) is Ok
            ==> <X448 as KeyAgreement>::agree_spec(private_key, u)
            == Ok::<Seq<u8>, CryptoError>(<X448 as KeyAgreement>::public_key_spec(private_key)),
{
    lemma_base_coordinate_decodes();
    lemma_equivalent_coordinates_agree(private_key, BASE_COORDINATE@, u);
}

} // verus!
