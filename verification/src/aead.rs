//! Authenticated encryption with associated data (AEAD).
//!
//! Plaintext becomes ciphertext; associated data stays visible but is bound to the same tag.
//! Opening releases plaintext only after the tag has been verified.

pub mod chacha20poly1305;
pub mod gcm;
pub mod record;

use vstd::prelude::*;

use crate::error::{CryptoError, CryptoResult};

verus! {

/// Ciphertext and a detached authentication tag. Keeping the tag detached leaves the wire layout
/// to the protocol.
#[derive(Clone, Debug, PartialEq, Eq)]
pub struct Sealed<Tag> {
    ciphertext: Vec<u8>,
    tag: Tag,
}

impl<Tag> Sealed<Tag> {
    /// The ciphertext bytes.
    pub closed spec fn spec_ciphertext(&self) -> Seq<u8> {
        self.ciphertext@
    }

    /// The tag.
    pub closed spec fn spec_tag(&self) -> Tag {
        self.tag
    }

    /// Pair a ciphertext with its tag.
    pub fn new(ciphertext: Vec<u8>, tag: Tag) -> (sealed: Self)
        ensures
            sealed.spec_ciphertext() == ciphertext@,
            sealed.spec_tag() == tag,
    {
        Self { ciphertext, tag }
    }

    /// Borrow the ciphertext.
    pub fn ciphertext(&self) -> (ciphertext: &[u8])
        ensures
            ciphertext@ == self.spec_ciphertext(),
    {
        self.ciphertext.as_slice()
    }

    /// Borrow the tag.
    pub fn tag(&self) -> (tag: &Tag)
        ensures
            *tag == self.spec_tag(),
    {
        &self.tag
    }

    /// Transfer the ciphertext and the tag.
    pub fn into_parts(self) -> (parts: (Vec<u8>, Tag))
        ensures
            parts.0@ == self.spec_ciphertext(),
            parts.1 == self.spec_tag(),
    {
        (self.ciphertext, self.tag)
    }
}

/// The bytes of a sealing outcome: ciphertext and tag, or the error.
pub open spec fn sealed_outcome<Tag: View<V = Seq<u8>>>(result: CryptoResult<Sealed<Tag>>) -> CryptoResult<(Seq<u8>, Seq<u8>)> {
    match result {
        Ok(sealed) => Ok((sealed.spec_ciphertext(), sealed.spec_tag()@)),
        Err(error) => Err(error),
    }
}

/// The bytes of an opening outcome: plaintext, or the error.
pub open spec fn opened_outcome(result: CryptoResult<Vec<u8>>) -> CryptoResult<Seq<u8>> {
    match result {
        Ok(plaintext) => Ok(plaintext@),
        Err(error) => Err(error),
    }
}

/// Authenticated encryption that releases plaintext only after verification succeeds.
pub trait Aead {
    /// The algorithm's nonce type, viewed as its bytes.
    type Nonce: View<V = Seq<u8>>;

    /// The algorithm's tag type, viewed as its bytes.
    type Tag: View<V = Seq<u8>>;

    /// The ciphertext and tag of sealing, or the error it reports.
    spec fn seal_spec(&self, nonce: Seq<u8>, associated_data: Seq<u8>, plaintext: Seq<u8>) -> CryptoResult<(Seq<u8>, Seq<u8>)>;

    /// The plaintext of opening, or the error it reports.
    spec fn open_spec(&self, nonce: Seq<u8>, associated_data: Seq<u8>, ciphertext: Seq<u8>, tag: Seq<u8>) -> CryptoResult<Seq<u8>>;

    /// Encrypt and authenticate `plaintext`, binding `associated_data` without encrypting it.
    fn seal(&self, nonce: &Self::Nonce, associated_data: &[u8], plaintext: &[u8]) -> (result: CryptoResult<Sealed<Self::Tag>>)
        ensures
            sealed_outcome(result) == self.seal_spec(nonce@, associated_data@, plaintext@),
    ;

    /// Authenticate and decrypt a complete ciphertext.
    fn open(&self, nonce: &Self::Nonce, associated_data: &[u8], ciphertext: &[u8], tag: &Self::Tag) -> (result: CryptoResult<Vec<u8>>)
        ensures
            opened_outcome(result) == self.open_spec(nonce@, associated_data@, ciphertext@, tag@),
    ;

    /// Opening what sealing produced, with the same nonce and associated data, gives back the
    /// plaintext.
    proof fn lemma_open_inverts_seal(&self, nonce: Seq<u8>, associated_data: Seq<u8>, plaintext: Seq<u8>)
        requires
            self.seal_spec(nonce, associated_data, plaintext) is Ok,
        ensures
            ({
                let (ciphertext, tag) = self.seal_spec(nonce, associated_data, plaintext)->Ok_0;
                self.open_spec(nonce, associated_data, ciphertext, tag) == Ok::<Seq<u8>, CryptoError>(plaintext)
            }),
    ;
}

} // verus!
