//! The full 128-bit GCM tag (NIST SP 800-38D §7.1 step 6 and §7.2 step 8):
//! `T = GCTR_K(J_0, S)`, compared with a received tag without an early exit.

use vstd::prelude::*;

use super::block_cipher::GcmBlockCipher;
use super::gctr::{apply, gctr_spec};
use super::ghash::GhashResult;
use super::setup::PreCounterBlock;
use crate::bits::lemma_or_difference;
use crate::error::{CryptoError, CryptoResult};

verus! {

/// Bytes in a full GCM tag.
pub const TAG_BYTES: usize = 16;

/// A computed full-length tag.
pub struct FullTag {
    bytes: [u8; TAG_BYTES],
}

impl View for FullTag {
    type V = Seq<u8>;

    open spec fn view(&self) -> Seq<u8> {
        self.spec_bytes()@
    }
}

impl FullTag {
    /// The tag bytes.
    pub closed spec fn spec_bytes(&self) -> [u8; TAG_BYTES] {
        self.bytes
    }

    /// Take ownership of sixteen tag bytes.
    pub fn from_bytes(bytes: [u8; TAG_BYTES]) -> (tag: Self)
        ensures
            tag@ == bytes@,
    {
        Self { bytes }
    }

    /// Borrow the tag bytes.
    pub fn as_bytes(&self) -> (bytes: &[u8; TAG_BYTES])
        ensures
            bytes@ == self@,
    {
        &self.bytes
    }

    /// Give up the tag bytes.
    pub fn into_bytes(self) -> (bytes: [u8; TAG_BYTES])
        ensures
            bytes@ == self@,
    {
        self.bytes
    }

    /// Compare every byte with `received`, accumulating differences without an early exit.
    pub fn verify(self, received: &[u8; TAG_BYTES]) -> (result: CryptoResult<()>)
        ensures
            self@ == received@ ==> result is Ok,
            self@ != received@ ==> result == Err::<(), CryptoError>(CryptoError::AuthenticationFailed),
    {
        let mut difference = 0u8;
        let mut index: usize = 0;
        while index < TAG_BYTES
            invariant
                index <= 16,
                (difference == 0) == (forall|j: int| 0 <= j < index ==> self.bytes[j] == received[j]),
            decreases 16 - index,
        {
            proof {
                lemma_or_difference(difference, self.bytes[index as int], received[index as int]);
            }
            difference = difference | (self.bytes[index] ^ received[index]);
            index = index + 1;
        }
        if difference == 0 {
            assert(self@ =~= received@);
            Ok(())
        } else {
            Err(CryptoError::AuthenticationFailed)
        }
    }
}

/// `T = GCTR_K(J_0, S)` with all 128 bits kept.
pub fn mask<C: GcmBlockCipher>(cipher: &C, pre_counter: PreCounterBlock, ghash_result: GhashResult) -> (tag: FullTag)
    ensures
        tag@ == gctr_spec(cipher, pre_counter@, ghash_result@),
{
    let mut bytes = ghash_result.into_block();
    apply(cipher, pre_counter.into_tag_counter(), &mut bytes);
    FullTag::from_bytes(bytes)
}

} // verus!
