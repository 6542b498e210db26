//! Typed `AEAD_CHACHA20_POLY1305`: a 256-bit key, a 96-bit nonce, and a 128-bit tag
//! (RFC 8439 §2.8). Nonce uniqueness per key remains the protocol's obligation.

use vstd::prelude::*;
use vstd::std_specs::convert::TryFromSpecImpl;

use super::construction::{
    aead_ciphertext_spec, aead_tag_spec, lemma_decryption_inverts_encryption, mac_data_spec, open, seal,
};
use super::limits::MAX_PAYLOAD_BYTES;
use crate::aead::record::Nonce96;
use crate::aead::{Aead, Sealed};
use crate::cipher::chacha20::api::xor_keystream_spec;
use crate::cipher::chacha20::block::keystream_block_spec;
use crate::cipher::chacha20::{ChaCha20, ChaCha20Key, ChaCha20Nonce};
use crate::error::{CryptoError, CryptoResult};
use crate::mac::poly1305::{Poly1305Tag, poly1305_spec};
use crate::random::{RandomSource, filled_outcome, generated_outcome};
use crate::secret::SecretBytes;
use crate::wipe::wipe_array;

verus! {

/// Bytes in a key.
const KEY_BYTES: usize = 32;

/// Bytes in a nonce.
const NONCE_BYTES: usize = 12;

/// Bytes in a tag.
const TAG_BYTES: usize = 16;

/// What sealing under `key` produces for `nonce`, `a`, and `p`.
pub open spec fn chacha20_poly1305_seal_spec(key: Seq<u8>, nonce: Seq<u8>, a: Seq<u8>, p: Seq<u8>) -> CryptoResult<(Seq<u8>, Seq<u8>)> {
    if p.len() <= MAX_PAYLOAD_BYTES {
        let c = aead_ciphertext_spec(key, nonce, p);
        Ok((c, aead_tag_spec(key, nonce, a, c)))
    } else {
        Err(CryptoError::MessageTooLong)
    }
}

/// What opening under `key` produces for `nonce`, `a`, `c`, and `tag`.
pub open spec fn chacha20_poly1305_open_spec(key: Seq<u8>, nonce: Seq<u8>, a: Seq<u8>, c: Seq<u8>, tag: Seq<u8>) -> CryptoResult<Seq<u8>> {
    if c.len() > MAX_PAYLOAD_BYTES {
        Err(CryptoError::MessageTooLong)
    } else if tag != aead_tag_spec(key, nonce, a, c) {
        Err(CryptoError::AuthenticationFailed)
    } else {
        Ok(xor_keystream_spec(key, nonce, 64, c))
    }
}

/// One owned 256-bit key dedicated to `AEAD_CHACHA20_POLY1305`.
pub struct ChaCha20Poly1305Key {
    bytes: SecretBytes<KEY_BYTES>,
}

impl View for ChaCha20Poly1305Key {
    type V = Seq<u8>;

    open spec fn view(&self) -> Seq<u8> {
        self.spec_secret()@
    }
}

impl ChaCha20Poly1305Key {
    /// Number of bytes in a key.
    pub const LEN: usize = 32;

    /// The owned key bytes.
    pub closed spec fn spec_secret(&self) -> SecretBytes<KEY_BYTES> {
        self.bytes
    }

    /// Take ownership of exactly 256 key bits.
    pub fn new(bytes: [u8; KEY_BYTES]) -> (key: Self)
        ensures
            key@ == bytes@,
    {
        Self { bytes: SecretBytes::new(bytes) }
    }

    /// Generate a key with the caller-selected randomness source. On failure the partially
    /// filled temporary is cleared and the source's error is returned.
    pub fn generate<R: RandomSource>(random: &mut R) -> (result: CryptoResult<Self>)
        ensures
            final(random).fills() == old(random).fills().push(final(random).fills().last()),
            generated_outcome(result) == filled_outcome(final(random).fills().last()),
            final(random).fills().last().0.len() == 32,
    {
        let mut bytes = [0u8; KEY_BYTES];
        match random.fill_bytes(&mut bytes) {
            Ok(()) => Ok(Self::new(bytes)),
            Err(error) => {
                wipe_array(&mut bytes);
                Err(error)
            },
        }
    }

    /// The redacted text that stands for this key in diagnostics.
    pub fn debug_text(&self) -> (text: &'static str)
        ensures
            text@ == "ChaCha20Poly1305Key([REDACTED])"@,
    {
        "ChaCha20Poly1305Key([REDACTED])"
    }
}

/// A public 96-bit ChaCha20-Poly1305 nonce.
#[derive(Clone, Copy, Debug, PartialEq, Eq, Hash)]
pub struct ChaCha20Poly1305Nonce([u8; NONCE_BYTES]);

impl View for ChaCha20Poly1305Nonce {
    type V = Seq<u8>;

    open spec fn view(&self) -> Seq<u8> {
        self.spec_bytes()@
    }
}

impl AsRef<[u8]> for ChaCha20Poly1305Nonce {
    /// Borrow the nonce bytes as a slice.
    fn as_ref(&self) -> (bytes: &[u8])
        ensures
            bytes@ == self@,
    {
        self.0.as_slice()
    }
}

impl ChaCha20Poly1305Nonce {
    /// Number of bytes in the supported nonce.
    pub const LEN: usize = 12;

    /// The nonce bytes.
    pub closed spec fn spec_bytes(&self) -> [u8; NONCE_BYTES] {
        self.0
    }

    /// Wrap exactly twelve nonce bytes.
    pub fn new(bytes: [u8; NONCE_BYTES]) -> (nonce: Self)
        ensures
            nonce.spec_bytes() == bytes,
    {
        Self(bytes)
    }

    /// Generate a nonce with the caller-selected randomness source, or return its error.
    pub fn generate<R: RandomSource>(random: &mut R) -> (result: CryptoResult<Self>)
        ensures
            final(random).fills() == old(random).fills().push(final(random).fills().last()),
            generated_outcome(result) == filled_outcome(final(random).fills().last()),
            final(random).fills().last().0.len() == 12,
    {
        let mut bytes = [0u8; NONCE_BYTES];
        match random.fill_bytes(&mut bytes) {
            Ok(()) => Ok(Self::new(bytes)),
            Err(error) => Err(error),
        }
    }

    /// Borrow the nonce bytes.
    pub fn as_bytes(&self) -> (bytes: &[u8; NONCE_BYTES])
        ensures
            *bytes == self.spec_bytes(),
    {
        &self.0
    }

    /// Return the nonce bytes.
    pub fn into_bytes(self) -> (bytes: [u8; NONCE_BYTES])
        ensures
            bytes == self.spec_bytes(),
    {
        self.0
    }

    /// The nonce a wire slice parses to, or the length error.
    pub open spec fn parsed_spec(bytes: Seq<u8>) -> CryptoResult<Self> {
        if bytes.len() == 12 {
            Ok(choose|candidate: Self| candidate@ == bytes)
        } else {
            Err(CryptoError::InvalidLength { name: "ChaCha20-Poly1305 nonce", expected: 12, actual: bytes.len() as usize })
        }
    }

    /// Parse a wire slice of exactly twelve bytes.
    pub fn from_slice(bytes: &[u8]) -> (result: CryptoResult<Self>)
        ensures
            result == Self::parsed_spec(bytes@),
    {
        if bytes.len() != NONCE_BYTES {
            return Err(CryptoError::InvalidLength { name: "ChaCha20-Poly1305 nonce", expected: NONCE_BYTES, actual: bytes.len() });
        }
        let mut exact = [0u8; NONCE_BYTES];
        let mut index: usize = 0;
        while index < NONCE_BYTES
            invariant
                bytes@.len() == 12,
                index <= 12,
                forall|j: int| 0 <= j < index ==> exact[j] == bytes@[j],
            decreases 12 - index,
        {
            exact[index] = bytes[index];
            index = index + 1;
        }
        let nonce = Self(exact);
        assert(nonce@ =~= bytes@);
        proof {
            let chosen = choose|candidate: Self| candidate@ == bytes@;
            assert(chosen.0 =~= nonce.0);
        }
        Ok(nonce)
    }
}

impl<'a> TryFrom<&'a [u8]> for ChaCha20Poly1305Nonce {
    type Error = CryptoError;

    fn try_from(bytes: &'a [u8]) -> (result: CryptoResult<Self>) {
        Self::from_slice(bytes)
    }
}

impl<'a> TryFromSpecImpl<&'a [u8]> for ChaCha20Poly1305Nonce {
    open spec fn obeys_try_from_spec() -> bool {
        true
    }

    open spec fn try_from_spec(bytes: &'a [u8]) -> CryptoResult<Self> {
        Self::parsed_spec(bytes@)
    }
}

impl Nonce96 for ChaCha20Poly1305Nonce {
    open spec fn spec_from_bytes(bytes: Seq<u8>) -> Self {
        choose|nonce: Self| nonce@ == bytes
    }

    fn from_bytes(bytes: [u8; 12]) -> (nonce: Self) {
        let nonce = Self::new(bytes);
        assert(nonce@ == bytes@);
        proof {
            let chosen = choose|candidate: Self| candidate@ == bytes@;
            assert(chosen.spec_bytes() =~= nonce.spec_bytes());
        }
        nonce
    }
}

/// A 128-bit ChaCha20-Poly1305 authentication tag.
#[derive(Clone, Copy, Debug, PartialEq, Eq, Hash)]
pub struct ChaCha20Poly1305Tag([u8; TAG_BYTES]);

impl View for ChaCha20Poly1305Tag {
    type V = Seq<u8>;

    open spec fn view(&self) -> Seq<u8> {
        self.spec_bytes()@
    }
}

impl AsRef<[u8]> for ChaCha20Poly1305Tag {
    /// Borrow the tag bytes as a slice.
    fn as_ref(&self) -> (bytes: &[u8])
        ensures
            bytes@ == self@,
    {
        self.0.as_slice()
    }
}

impl ChaCha20Poly1305Tag {
    /// Number of bytes in the full tag.
    pub const LEN: usize = 16;

    /// The tag bytes.
    pub closed spec fn spec_bytes(&self) -> [u8; TAG_BYTES] {
        self.0
    }

    /// Wrap exactly sixteen tag bytes.
    pub fn new(bytes: [u8; TAG_BYTES]) -> (tag: Self)
        ensures
            tag.spec_bytes() == bytes,
    {
        Self(bytes)
    }

    /// Borrow the tag bytes.
    pub fn as_bytes(&self) -> (bytes: &[u8; TAG_BYTES])
        ensures
            *bytes == self.spec_bytes(),
    {
        &self.0
    }

    /// Return the tag bytes.
    pub fn into_bytes(self) -> (bytes: [u8; TAG_BYTES])
        ensures
            bytes == self.spec_bytes(),
    {
        self.0
    }

    /// The tag a wire slice parses to, or the length error.
    pub open spec fn parsed_spec(bytes: Seq<u8>) -> CryptoResult<Self> {
        if bytes.len() == 16 {
            Ok(choose|candidate: Self| candidate@ == bytes)
        } else {
            Err(CryptoError::InvalidLength { name: "ChaCha20-Poly1305 tag", expected: 16, actual: bytes.len() as usize })
        }
    }

    /// Parse a wire slice of exactly sixteen bytes.
    pub fn from_slice(bytes: &[u8]) -> (result: CryptoResult<Self>)
        ensures
            result == Self::parsed_spec(bytes@),
    {
        if bytes.len() != TAG_BYTES {
            return Err(CryptoError::InvalidLength { name: "ChaCha20-Poly1305 tag", expected: TAG_BYTES, actual: bytes.len() });
        }
        let mut exact = [0u8; TAG_BYTES];
        let mut index: usize = 0;
        while index < TAG_BYTES
            invariant
                bytes@.len() == 16,
                index <= 16,
                forall|j: int| 0 <= j < index ==> exact[j] == bytes@[j],
            decreases 16 - index,
        {
            exact[index] = bytes[index];
            index = index + 1;
        }
        let tag = Self(exact);
        assert(tag@ =~= bytes@);
        proof {
            let chosen = choose|candidate: Self| candidate@ == bytes@;
            assert(chosen.0 =~= tag.0);
        }
        Ok(tag)
    }
}

impl<'a> TryFrom<&'a [u8]> for ChaCha20Poly1305Tag {
    type Error = CryptoError;

    fn try_from(bytes: &'a [u8]) -> (result: CryptoResult<Self>) {
        Self::from_slice(bytes)
    }
}

impl<'a> TryFromSpecImpl<&'a [u8]> for ChaCha20Poly1305Tag {
    open spec fn obeys_try_from_spec() -> bool {
        true
    }

    open spec fn try_from_spec(bytes: &'a [u8]) -> CryptoResult<Self> {
        Self::parsed_spec(bytes@)
    }
}


/// `AEAD_CHACHA20_POLY1305` under one key.
pub struct ChaCha20Poly1305 {
    cipher: ChaCha20,
}

impl ChaCha20Poly1305 {
    /// The key bytes.
    pub closed spec fn spec_key(&self) -> Seq<u8> {
        self.cipher.spec_key()
    }

    /// Consume a key.
    pub fn new(key: ChaCha20Poly1305Key) -> (algorithm: Self)
        ensures
            algorithm.spec_key() == key@,
    {
        let ChaCha20Poly1305Key { bytes } = key;
        Self { cipher: ChaCha20::new(ChaCha20Key::new(bytes.into_inner())) }
    }

    /// Encrypt `plaintext` and authenticate it together with `associated_data`.
    pub fn seal(&self, nonce: &ChaCha20Poly1305Nonce, associated_data: &[u8], plaintext: &[u8]) -> (result: CryptoResult<Sealed<ChaCha20Poly1305Tag>>)
        ensures
            crate::aead::sealed_outcome(result) == chacha20_poly1305_seal_spec(self.spec_key(), nonce@, associated_data@, plaintext@),
    {
        let (ciphertext, tag) = match seal(&self.cipher, &ChaCha20Nonce::new(nonce.into_bytes()), associated_data, plaintext) {
            Ok(sealed) => sealed,
            Err(error) => return Err(error),
        };
        let tag = ChaCha20Poly1305Tag::new(tag.into_bytes());
        Ok(Sealed::new(ciphertext, tag))
    }

    /// Verify the tag, then decrypt; no plaintext is released unless the tag verifies.
    pub fn open(&self, nonce: &ChaCha20Poly1305Nonce, associated_data: &[u8], ciphertext: &[u8], tag: &ChaCha20Poly1305Tag) -> (result: CryptoResult<Vec<u8>>)
        ensures
            crate::aead::opened_outcome(result) == chacha20_poly1305_open_spec(self.spec_key(), nonce@, associated_data@, ciphertext@, tag@),
    {
        open(&self.cipher, &ChaCha20Nonce::new(nonce.into_bytes()), associated_data, ciphertext, &Poly1305Tag::new(tag.into_bytes()))
    }

    /// The redacted text that stands for this algorithm in diagnostics.
    pub fn debug_text(&self) -> (text: &'static str)
        ensures
            text@ == "ChaCha20Poly1305([REDACTED KEY])"@,
    {
        "ChaCha20Poly1305([REDACTED KEY])"
    }
}

impl Aead for ChaCha20Poly1305 {
    type Nonce = ChaCha20Poly1305Nonce;
    type Tag = ChaCha20Poly1305Tag;

    open spec fn seal_spec(&self, nonce: Seq<u8>, associated_data: Seq<u8>, plaintext: Seq<u8>) -> CryptoResult<(Seq<u8>, Seq<u8>)> {
        chacha20_poly1305_seal_spec(self.spec_key(), nonce, associated_data, plaintext)
    }

    open spec fn open_spec(&self, nonce: Seq<u8>, associated_data: Seq<u8>, ciphertext: Seq<u8>, tag: Seq<u8>) -> CryptoResult<Seq<u8>> {
        chacha20_poly1305_open_spec(self.spec_key(), nonce, associated_data, ciphertext, tag)
    }

    fn seal(&self, nonce: &ChaCha20Poly1305Nonce, associated_data: &[u8], plaintext: &[u8]) -> (result: CryptoResult<Sealed<ChaCha20Poly1305Tag>>) {
        ChaCha20Poly1305::seal(self, nonce, associated_data, plaintext)
    }

    fn open(&self, nonce: &ChaCha20Poly1305Nonce, associated_data: &[u8], ciphertext: &[u8], tag: &ChaCha20Poly1305Tag) -> (result: CryptoResult<Vec<u8>>) {
        ChaCha20Poly1305::open(self, nonce, associated_data, ciphertext, tag)
    }

    proof fn lemma_open_inverts_seal(&self, nonce: Seq<u8>, associated_data: Seq<u8>, plaintext: Seq<u8>) {
        lemma_decryption_inverts_encryption(self.spec_key(), nonce, plaintext);
    }
}

/// ChaCha20-Poly1305 sealing as RFC 8439 §2.8 defines it, through the generic [`Aead`]
/// interface and the algorithm's own, for every plaintext within the limit: the ciphertext is the
/// plaintext XORed with the ChaCha20 keystream from block one, and the tag is Poly1305, under the
/// first 32 bytes of block zero, over the caller's associated data and that ciphertext as
/// `construction::lemma_mac_data_layout` lays them out.
pub proof fn lemma_seal_is_rfc8439(algorithm: &ChaCha20Poly1305, nonce: Seq<u8>, a: Seq<u8>, p: Seq<u8>)
    requires
        p.len() <= MAX_PAYLOAD_BYTES,
    ensures
        ({
            let key = algorithm.spec_key();
            let c = xor_keystream_spec(key, nonce, 64, p);
            let tag = poly1305_spec(keystream_block_spec(key, 0, nonce).take(32), mac_data_spec(a, c));
            &&& c.len() == p.len()
            &&& algorithm.seal_spec(nonce, a, p) == Ok::<(Seq<u8>, Seq<u8>), CryptoError>((c, tag))
            &&& chacha20_poly1305_seal_spec(key, nonce, a, p) == Ok::<(Seq<u8>, Seq<u8>), CryptoError>((c, tag))
        }),
{
}

/// ChaCha20-Poly1305 opening as RFC 8439 §2.8 defines it, for every ciphertext within the
/// limit: it succeeds exactly when the received tag is Poly1305, under the first 32 bytes of
/// block zero, over the received associated data and ciphertext, and then gives the ciphertext
/// XORed with the keystream from block one; any other tag is refused with
/// [`CryptoError::AuthenticationFailed`].
pub proof fn lemma_open_is_rfc8439(algorithm: &ChaCha20Poly1305, nonce: Seq<u8>, a: Seq<u8>, c: Seq<u8>, tag: Seq<u8>)
    requires
        c.len() <= MAX_PAYLOAD_BYTES,
    ensures
        ({
            let key = algorithm.spec_key();
            let expected = poly1305_spec(keystream_block_spec(key, 0, nonce).take(32), mac_data_spec(a, c));
            &&& tag == expected ==> algorithm.open_spec(nonce, a, c, tag)
                == Ok::<Seq<u8>, CryptoError>(xor_keystream_spec(key, nonce, 64, c))
            &&& tag != expected ==> algorithm.open_spec(nonce, a, c, tag)
                == Err::<Seq<u8>, CryptoError>(CryptoError::AuthenticationFailed)
            &&& chacha20_poly1305_open_spec(key, nonce, a, c, tag) == algorithm.open_spec(nonce, a, c, tag)
        }),
{
}

} // verus!
