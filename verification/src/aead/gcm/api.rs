//! Typed AES-128-GCM: the GCM profile (96-bit nonce, full 128-bit tag) over AES-128, the
//! readable reference composition.

use vstd::prelude::*;
use vstd::std_specs::convert::TryFromSpecImpl;

use super::authentication::padded_blocks_spec;
use super::block_cipher::GcmBlockCipher;
use super::counter::inc32_spec;
use super::ghash::field::zero_block_spec;
use super::ghash::state::ghash_spec;
use super::gctr::gctr_spec;
use super::limits::lengths_supported_spec;
use super::open::open;
use super::seal::{gcm_ciphertext_spec, gcm_tag_spec, lemma_decryption_inverts_encryption, seal};
use super::setup::{GcmIv96, pre_counter_spec};
use crate::aead::record::Nonce96;
use crate::aead::{Aead, Sealed};
use crate::bits::be64_spec;
use crate::cipher::aes::aes128::key_schedule::expanded_round_keys;
use crate::cipher::aes::aes128::{Aes128, Aes128Key};
use crate::error::{CryptoError, CryptoResult};
use crate::random::{RandomSource, filled_outcome, generated_outcome};
use crate::secret::SecretBytes;
use crate::wipe::wipe_array;

verus! {

/// Bytes in an AES-128-GCM key.
const KEY_BYTES: usize = 16;

/// Bytes in the supported 96-bit nonce.
const NONCE_BYTES: usize = 12;

/// Bytes in the full authentication tag.
const TAG_BYTES: usize = 16;

/// What sealing under `cipher` produces for `nonce`, `a`, and `p`.
pub open spec fn aes128_gcm_seal_spec(cipher: &Aes128, nonce: Seq<u8>, a: Seq<u8>, p: Seq<u8>) -> CryptoResult<(Seq<u8>, Seq<u8>)> {
    if lengths_supported_spec(a.len() as int, p.len() as int) {
        let c = gcm_ciphertext_spec(cipher, nonce, p);
        Ok((c, gcm_tag_spec(cipher, nonce, a, c)))
    } else {
        Err(CryptoError::MessageTooLong)
    }
}

/// What opening under `cipher` produces for `nonce`, `a`, `c`, and `tag`.
pub open spec fn aes128_gcm_open_spec(cipher: &Aes128, nonce: Seq<u8>, a: Seq<u8>, c: Seq<u8>, tag: Seq<u8>) -> CryptoResult<Seq<u8>> {
    if !lengths_supported_spec(a.len() as int, c.len() as int) {
        Err(CryptoError::MessageTooLong)
    } else if tag != gcm_tag_spec(cipher, nonce, a, c) {
        Err(CryptoError::AuthenticationFailed)
    } else {
        Ok(gctr_spec(cipher, inc32_spec(pre_counter_spec(nonce)), c))
    }
}

/// An owned AES-128 key dedicated to GCM, consumed by [`Aes128Gcm::new`].
pub struct Aes128GcmKey {
    bytes: SecretBytes<KEY_BYTES>,
}

impl View for Aes128GcmKey {
    type V = Seq<u8>;

    open spec fn view(&self) -> Seq<u8> {
        self.spec_secret()@
    }
}

impl Aes128GcmKey {
    /// Number of bytes in an AES-128-GCM key.
    pub const LEN: usize = 16;

    /// The owned key bytes.
    pub closed spec fn spec_secret(&self) -> SecretBytes<KEY_BYTES> {
        self.bytes
    }

    /// Take ownership of exactly sixteen key bytes.
    pub fn new(bytes: [u8; KEY_BYTES]) -> (key: Self)
        ensures
            key@ == bytes@,
    {
        Self { bytes: SecretBytes::new(bytes) }
    }

    /// Generate a key with the caller-selected randomness source. On failure the partially
    /// filled temporary is cleared and the source's error is returned.
    pub fn generate<R: RandomSource>(random: &mut R) -> (result: CryptoResult<Self>)
        ensures
            final(random).fills() == old(random).fills().push(final(random).fills().last()),
            generated_outcome(result) == filled_outcome(final(random).fills().last()),
            final(random).fills().last().0.len() == 16,
    {
        let mut bytes = [0u8; KEY_BYTES];
        match random.fill_bytes(&mut bytes) {
            Ok(()) => Ok(Self::new(bytes)),
            Err(error) => {
                wipe_array(&mut bytes);
                Err(error)
            },
        }
    }

    /// The redacted text that stands for this key in diagnostics.
    pub fn debug_text(&self) -> (text: &'static str)
        ensures
            text@ == "Aes128GcmKey([REDACTED])"@,
    {
        "Aes128GcmKey([REDACTED])"
    }
}

/// A public 96-bit AES-128-GCM nonce.
#[derive(Clone, Copy, Debug, PartialEq, Eq)]
pub struct Aes128GcmNonce([u8; NONCE_BYTES]);

impl View for Aes128GcmNonce {
    type V = Seq<u8>;

    open spec fn view(&self) -> Seq<u8> {
        self.spec_bytes()@
    }
}

impl AsRef<[u8]> for Aes128GcmNonce {
    /// Borrow the nonce bytes as a slice.
    fn as_ref(&self) -> (bytes: &[u8])
        ensures
            bytes@ == self@,
    {
        self.0.as_slice()
    }
}

impl Aes128GcmNonce {
    /// Number of bytes in the supported nonce.
    pub const LEN: usize = 12;

    /// The nonce bytes.
    pub closed spec fn spec_bytes(&self) -> [u8; NONCE_BYTES] {
        self.0
    }

    /// Wrap exactly twelve nonce bytes.
    pub fn new(bytes: [u8; NONCE_BYTES]) -> (nonce: Self)
        ensures
            nonce.spec_bytes() == bytes,
    {
        Self(bytes)
    }

    /// Generate a nonce with the caller-selected randomness source, or return its error.
    pub fn generate<R: RandomSource>(random: &mut R) -> (result: CryptoResult<Self>)
        ensures
            final(random).fills() == old(random).fills().push(final(random).fills().last()),
            generated_outcome(result) == filled_outcome(final(random).fills().last()),
            final(random).fills().last().0.len() == 12,
    {
        let mut bytes = [0u8; NONCE_BYTES];
        match random.fill_bytes(&mut bytes) {
            Ok(()) => Ok(Self::new(bytes)),
            Err(error) => Err(error),
        }
    }

    /// Borrow the nonce bytes.
    pub fn as_bytes(&self) -> (bytes: &[u8; NONCE_BYTES])
        ensures
            *bytes == self.spec_bytes(),
    {
        &self.0
    }

    /// Return the nonce bytes.
    pub fn into_bytes(self) -> (bytes: [u8; NONCE_BYTES])
        ensures
            bytes == self.spec_bytes(),
    {
        self.0
    }

    /// The nonce a wire slice parses to, or the length error.
    pub open spec fn parsed_spec(bytes: Seq<u8>) -> CryptoResult<Self> {
        if bytes.len() == 12 {
            Ok(choose|candidate: Self| candidate@ == bytes)
        } else {
            Err(CryptoError::InvalidLength { name: "AES-128-GCM nonce", expected: 12, actual: bytes.len() as usize })
        }
    }

    /// Parse a wire slice of exactly twelve bytes.
    pub fn from_slice(bytes: &[u8]) -> (result: CryptoResult<Self>)
        ensures
            result == Self::parsed_spec(bytes@),
    {
        if bytes.len() != NONCE_BYTES {
            return Err(CryptoError::InvalidLength { name: "AES-128-GCM nonce", expected: NONCE_BYTES, actual: bytes.len() });
        }
        let mut exact = [0u8; NONCE_BYTES];
        let mut index: usize = 0;
        while index < NONCE_BYTES
            invariant
                bytes@.len() == 12,
                index <= 12,
                forall|j: int| 0 <= j < index ==> exact[j] == bytes@[j],
            decreases 12 - index,
        {
            exact[index] = bytes[index];
            index = index + 1;
        }
        let nonce = Self(exact);
        assert(nonce@ =~= bytes@);
        proof {
            let chosen = choose|candidate: Self| candidate@ == bytes@;
            assert(chosen.0 =~= nonce.0);
        }
        Ok(nonce)
    }
}

impl<'a> TryFrom<&'a [u8]> for Aes128GcmNonce {
    type Error = CryptoError;

    fn try_from(bytes: &'a [u8]) -> (result: CryptoResult<Self>) {
        Self::from_slice(bytes)
    }
}

impl<'a> TryFromSpecImpl<&'a [u8]> for Aes128GcmNonce {
    open spec fn obeys_try_from_spec() -> bool {
        true
    }

    open spec fn try_from_spec(bytes: &'a [u8]) -> CryptoResult<Self> {
        Self::parsed_spec(bytes@)
    }
}

impl Nonce96 for Aes128GcmNonce {
    open spec fn spec_from_bytes(bytes: Seq<u8>) -> Self {
        choose|nonce: Self| nonce@ == bytes
    }

    fn from_bytes(bytes: [u8; 12]) -> (nonce: Self) {
        let nonce = Self::new(bytes);
        assert(nonce@ == bytes@);
        proof {
            let chosen = choose|candidate: Self| candidate@ == bytes@;
            assert(chosen.spec_bytes() =~= nonce.spec_bytes());
        }
        nonce
    }
}

/// A full 128-bit AES-128-GCM authentication tag.
#[derive(Clone, Copy, Debug, PartialEq, Eq)]
pub struct Aes128GcmTag([u8; TAG_BYTES]);

impl View for Aes128GcmTag {
    type V = Seq<u8>;

    open spec fn view(&self) -> Seq<u8> {
        self.spec_bytes()@
    }
}

impl AsRef<[u8]> for Aes128GcmTag {
    /// Borrow the tag bytes as a slice.
    fn as_ref(&self) -> (bytes: &[u8])
        ensures
            bytes@ == self@,
    {
        self.0.as_slice()
    }
}

impl Aes128GcmTag {
    /// Number of bytes in the full tag.
    pub const LEN: usize = 16;

    /// The tag bytes.
    pub closed spec fn spec_bytes(&self) -> [u8; TAG_BYTES] {
        self.0
    }

    /// Wrap exactly sixteen tag bytes.
    pub fn new(bytes: [u8; TAG_BYTES]) -> (tag: Self)
        ensures
            tag.spec_bytes() == bytes,
    {
        Self(bytes)
    }

    /// Borrow the tag bytes.
    pub fn as_bytes(&self) -> (bytes: &[u8; TAG_BYTES])
        ensures
            *bytes == self.spec_bytes(),
    {
        &self.0
    }

    /// Return the tag bytes.
    pub fn into_bytes(self) -> (bytes: [u8; TAG_BYTES])
        ensures
            bytes == self.spec_bytes(),
    {
        self.0
    }

    /// The tag a wire slice parses to, or the length error.
    pub open spec fn parsed_spec(bytes: Seq<u8>) -> CryptoResult<Self> {
        if bytes.len() == 16 {
            Ok(choose|candidate: Self| candidate@ == bytes)
        } else {
            Err(CryptoError::InvalidLength { name: "AES-128-GCM tag", expected: 16, actual: bytes.len() as usize })
        }
    }

    /// Parse a wire slice of exactly sixteen bytes.
    pub fn from_slice(bytes: &[u8]) -> (result: CryptoResult<Self>)
        ensures
            result == Self::parsed_spec(bytes@),
    {
        if bytes.len() != TAG_BYTES {
            return Err(CryptoError::InvalidLength { name: "AES-128-GCM tag", expected: TAG_BYTES, actual: bytes.len() });
        }
        let mut exact = [0u8; TAG_BYTES];
        let mut index: usize = 0;
        while index < TAG_BYTES
            invariant
                bytes@.len() == 16,
                index <= 16,
                forall|j: int| 0 <= j < index ==> exact[j] == bytes@[j],
            decreases 16 - index,
        {
            exact[index] = bytes[index];
            index = index + 1;
        }
        let tag = Self(exact);
        assert(tag@ =~= bytes@);
        proof {
            let chosen = choose|candidate: Self| candidate@ == bytes@;
            assert(chosen.0 =~= tag.0);
        }
        Ok(tag)
    }
}

impl<'a> TryFrom<&'a [u8]> for Aes128GcmTag {
    type Error = CryptoError;

    fn try_from(bytes: &'a [u8]) -> (result: CryptoResult<Self>) {
        Self::from_slice(bytes)
    }
}

impl<'a> TryFromSpecImpl<&'a [u8]> for Aes128GcmTag {
    open spec fn obeys_try_from_spec() -> bool {
        true
    }

    open spec fn try_from_spec(bytes: &'a [u8]) -> CryptoResult<Self> {
        Self::parsed_spec(bytes@)
    }
}

/// AES-128-GCM under one expanded key.
pub struct Aes128Gcm {
    cipher: Aes128,
}

impl Aes128Gcm {
    /// The expanded AES-128 cipher.
    pub closed spec fn spec_cipher(&self) -> Aes128 {
        self.cipher
    }

    /// Consume a key and expand it once.
    pub fn new(key: Aes128GcmKey) -> (algorithm: Self)
        ensures
            algorithm.spec_cipher().round_keys() == expanded_round_keys(key@, 4, 10),
    {
        let Aes128GcmKey { bytes } = key;
        let cipher = Aes128::new(Aes128Key::new(bytes.into_inner()));
        Self { cipher }
    }

    /// Encrypt `plaintext` and authenticate it together with `associated_data`.
    ///
    /// Fails with [`CryptoError::MessageTooLong`] exactly when a length is beyond the GCM
    /// limits.
    pub fn seal(&self, nonce: &Aes128GcmNonce, associated_data: &[u8], plaintext: &[u8]) -> (result: CryptoResult<Sealed<Aes128GcmTag>>)
        ensures
            crate::aead::sealed_outcome(result) == aes128_gcm_seal_spec(&self.spec_cipher(), nonce@, associated_data@, plaintext@),
    {
        let iv = GcmIv96::new(nonce.into_bytes());
        let result = match seal(&self.cipher, &iv, associated_data, plaintext) {
            Ok(result) => result,
            Err(error) => return Err(error),
        };
        let (ciphertext, tag) = result.into_parts();
        let tag = Aes128GcmTag::new(tag);
        assert(tag@ =~= tag.spec_bytes()@);
        Ok(Sealed::new(ciphertext, tag))
    }

    /// Authenticate and decrypt a complete ciphertext; no plaintext is released unless the tag
    /// verifies.
    pub fn open(&self, nonce: &Aes128GcmNonce, associated_data: &[u8], ciphertext: &[u8], tag: &Aes128GcmTag) -> (result: CryptoResult<Vec<u8>>)
        ensures
            crate::aead::opened_outcome(result) == aes128_gcm_open_spec(&self.spec_cipher(), nonce@, associated_data@, ciphertext@, tag@),
    {
        let iv = GcmIv96::new(nonce.into_bytes());
        open(&self.cipher, &iv, associated_data, ciphertext, tag.as_bytes())
    }

    /// The redacted text that stands for this algorithm in diagnostics.
    pub fn debug_text(&self) -> (text: &'static str)
        ensures
            text@ == "Aes128Gcm([REDACTED KEY SCHEDULE])"@,
    {
        "Aes128Gcm([REDACTED KEY SCHEDULE])"
    }
}

impl Aead for Aes128Gcm {
    type Nonce = Aes128GcmNonce;
    type Tag = Aes128GcmTag;

    open spec fn seal_spec(&self, nonce: Seq<u8>, associated_data: Seq<u8>, plaintext: Seq<u8>) -> CryptoResult<(Seq<u8>, Seq<u8>)> {
        aes128_gcm_seal_spec(&self.spec_cipher(), nonce, associated_data, plaintext)
    }

    open spec fn open_spec(&self, nonce: Seq<u8>, associated_data: Seq<u8>, ciphertext: Seq<u8>, tag: Seq<u8>) -> CryptoResult<Seq<u8>> {
        aes128_gcm_open_spec(&self.spec_cipher(), nonce, associated_data, ciphertext, tag)
    }

    fn seal(&self, nonce: &Aes128GcmNonce, associated_data: &[u8], plaintext: &[u8]) -> (result: CryptoResult<Sealed<Aes128GcmTag>>) {
        Aes128Gcm::seal(self, nonce, associated_data, plaintext)
    }

    fn open(&self, nonce: &Aes128GcmNonce, associated_data: &[u8], ciphertext: &[u8], tag: &Aes128GcmTag) -> (result: CryptoResult<Vec<u8>>) {
        Aes128Gcm::open(self, nonce, associated_data, ciphertext, tag)
    }

    proof fn lemma_open_inverts_seal(&self, nonce: Seq<u8>, associated_data: Seq<u8>, plaintext: Seq<u8>) {
        lemma_decryption_inverts_encryption(&self.spec_cipher(), nonce, plaintext);
    }
}

/// AES-128-GCM sealing as NIST SP 800-38D defines it, for every input within the length
/// limits, through the generic [`Aead`] interface and the algorithm's own: with
/// `J0 = nonce || 0^31 || 1` and `H = E_K(0^128)`, the ciphertext is `GCTR_K(inc32(J0), P)` and
/// the tag is `GCTR_K(J0, GHASH_H(A || 0^v || C || 0^u || [len(A)]_64 || [len(C)]_64))`, where
/// `A` is the caller's associated data, each part is zero-padded to whole blocks and the
/// lengths are in bits. Associated data of another length changes the last GHASH block.
pub proof fn lemma_aes128_gcm_seal_is_nist_gcm(algorithm: &Aes128Gcm, nonce: Seq<u8>, a: Seq<u8>, p: Seq<u8>)
    requires
        lengths_supported_spec(a.len() as int, p.len() as int),
    ensures
        ({
            let cipher = algorithm.spec_cipher();
            let j0 = nonce + seq![0u8, 0u8, 0u8, 1u8];
            let h = cipher.spec_encrypt(zero_block_spec());
            let c = gctr_spec(&cipher, inc32_spec(j0), p);
            let lengths = be64_spec((8 * a.len()) as u64) + be64_spec((8 * c.len()) as u64);
            let tag = gctr_spec(&cipher, j0, ghash_spec(h, padded_blocks_spec(a) + padded_blocks_spec(c) + seq![lengths]));
            &&& c.len() == p.len()
            &&& algorithm.seal_spec(nonce, a, p) == Ok::<(Seq<u8>, Seq<u8>), CryptoError>((c, tag))
            &&& aes128_gcm_seal_spec(&cipher, nonce, a, p) == Ok::<(Seq<u8>, Seq<u8>), CryptoError>((c, tag))
        }),
{
}

/// AES-128-GCM opening as NIST SP 800-38D defines it, for every input within the length
/// limits: it succeeds exactly when the received tag is
/// `GCTR_K(J0, GHASH_H(A || 0^v || C || 0^u || [len(A)]_64 || [len(C)]_64))` over the received
/// associated data and ciphertext, and then gives `GCTR_K(inc32(J0), C)`; any other tag is
/// refused with [`CryptoError::AuthenticationFailed`].
pub proof fn lemma_aes128_gcm_open_is_nist_gcm(algorithm: &Aes128Gcm, nonce: Seq<u8>, a: Seq<u8>, c: Seq<u8>, tag: Seq<u8>)
    requires
        lengths_supported_spec(a.len() as int, c.len() as int),
    ensures
        ({
            let cipher = algorithm.spec_cipher();
            let j0 = nonce + seq![0u8, 0u8, 0u8, 1u8];
            let h = cipher.spec_encrypt(zero_block_spec());
            let lengths = be64_spec((8 * a.len()) as u64) + be64_spec((8 * c.len()) as u64);
            let expected = gctr_spec(&cipher, j0, ghash_spec(h, padded_blocks_spec(a) + padded_blocks_spec(c) + seq![lengths]));
            &&& tag == expected ==> algorithm.open_spec(nonce, a, c, tag)
                == Ok::<Seq<u8>, CryptoError>(gctr_spec(&cipher, inc32_spec(j0), c))
            &&& tag != expected ==> algorithm.open_spec(nonce, a, c, tag)
                == Err::<Seq<u8>, CryptoError>(CryptoError::AuthenticationFailed)
            &&& aes128_gcm_open_spec(&cipher, nonce, a, c, tag) == algorithm.open_spec(nonce, a, c, tag)
        }),
{
}

} // verus!
