//! GCM key and IV setup (NIST SP 800-38D §7.1, Algorithm 4 steps 1–2): the hash subkey
//! `H = CIPH_K(0^128)` and, for a 96-bit IV, the pre-counter block `J_0 = IV || 0^31 || 1`.

use vstd::prelude::*;

use super::block_cipher::GcmBlockCipher;
use super::counter::{CounterBlock, inc32_spec};
use super::ghash::field::zero_block_spec;
use super::ghash::HashSubkey;

verus! {

/// Bytes in the recommended GCM IV.
pub const IV_BYTES: usize = 12;

/// Bytes in a GCM block.
const BLOCK_BYTES: usize = 16;

/// `J_0 = IV || 0^31 || 1` for a 96-bit IV.
pub open spec fn pre_counter_spec(iv: Seq<u8>) -> Seq<u8> {
    iv + seq![0u8, 0u8, 0u8, 1u8]
}

/// `H = CIPH_K(0^128)`.
pub open spec fn hash_subkey_spec<C: GcmBlockCipher>(cipher: &C) -> Seq<u8> {
    cipher.spec_encrypt(zero_block_spec())
}

/// A 96-bit GCM initialization vector.
pub struct GcmIv96 {
    bytes: [u8; IV_BYTES],
}

impl View for GcmIv96 {
    type V = Seq<u8>;

    open spec fn view(&self) -> Seq<u8> {
        self.spec_bytes()@
    }
}

impl GcmIv96 {
    /// The IV bytes.
    pub closed spec fn spec_bytes(&self) -> [u8; IV_BYTES] {
        self.bytes
    }

    /// Take ownership of twelve IV bytes.
    pub fn new(bytes: [u8; IV_BYTES]) -> (iv: Self)
        ensures
            iv@ == bytes@,
    {
        Self { bytes }
    }
}

/// The pre-counter block `J_0`.
pub struct PreCounterBlock {
    bytes: [u8; BLOCK_BYTES],
}

impl View for PreCounterBlock {
    type V = Seq<u8>;

    open spec fn view(&self) -> Seq<u8> {
        self.spec_bytes()@
    }
}

impl PreCounterBlock {
    /// The block bytes.
    pub closed spec fn spec_bytes(&self) -> [u8; BLOCK_BYTES] {
        self.bytes
    }

    /// `J_0 = IV || 0^31 || 1`.
    pub fn from_iv(iv: &GcmIv96) -> (pre_counter: Self)
        ensures
            pre_counter@ == pre_counter_spec(iv@),
    {
        let mut bytes = [0u8; BLOCK_BYTES];
        let mut index: usize = 0;
        while index < IV_BYTES
            invariant
                index <= 12,
                forall|j: int| 0 <= j < index ==> bytes[j] == iv@[j],
                forall|j: int| 12 <= j < 16 ==> bytes[j] == 0,
            decreases 12 - index,
        {
            bytes[index] = iv.bytes[index];
            index = index + 1;
        }
        bytes[BLOCK_BYTES - 1] = 1;
        let pre_counter = Self { bytes };
        assert(pre_counter@ =~= pre_counter_spec(iv@));
        pre_counter
    }

    /// The first payload counter block, `inc32(J_0)`.
    pub fn payload_counter(&self) -> (counter: CounterBlock)
        ensures
            counter@ == inc32_spec(self@),
    {
        let mut counter = CounterBlock::new(self.bytes);
        counter.increment();
        counter
    }

    /// Consume `J_0` as the counter block that masks the tag.
    pub fn into_tag_counter(self) -> (counter: CounterBlock)
        ensures
            counter@ == self@,
    {
        CounterBlock::new(self.bytes)
    }

    /// Borrow `J_0`.
    pub fn as_block(&self) -> (block: &[u8; BLOCK_BYTES])
        ensures
            block@ == self@,
    {
        &self.bytes
    }
}

/// `H = CIPH_K(0^128)`.
pub fn derive_hash_subkey<C: GcmBlockCipher>(cipher: &C) -> (subkey: HashSubkey)
    ensures
        subkey@ == hash_subkey_spec(cipher),
{
    let mut encrypted_zero = [0u8; BLOCK_BYTES];
    assert(encrypted_zero@ =~= zero_block_spec());
    cipher.encrypt_block_in_place(&mut encrypted_zero);
    HashSubkey::new(encrypted_zero)
}

} // verus!
