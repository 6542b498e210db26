//! The GHASH recurrence `Y_i = (Y_{i-1} ⊕ X_i) • H`, starting from `Y_0 = 0^128`
//! (NIST SP 800-38D §6.4, Algorithm 2).

use vstd::prelude::*;

use super::field::{
    BLOCK_BYTES, FieldElement, gf128_mul_spec, multiply, xor_block_spec, zero_block_spec,
};

verus! {

/// The accumulator after folding `blocks` into `start` under hash subkey `h`.
pub open spec fn ghash_fold_spec(h: Seq<u8>, start: Seq<u8>, blocks: Seq<Seq<u8>>) -> Seq<u8>
    decreases blocks.len(),
{
    if blocks.len() == 0 {
        start
    } else {
        gf128_mul_spec(xor_block_spec(ghash_fold_spec(h, start, blocks.drop_last()), blocks.last()), h)
    }
}

/// `GHASH_H(X_1 || ... || X_m)`.
pub open spec fn ghash_spec(h: Seq<u8>, blocks: Seq<Seq<u8>>) -> Seq<u8> {
    ghash_fold_spec(h, zero_block_spec(), blocks)
}

/// Folding a concatenation is folding the second part into the result of the first.
pub proof fn lemma_ghash_fold_concat(h: Seq<u8>, start: Seq<u8>, first: Seq<Seq<u8>>, second: Seq<Seq<u8>>)
    ensures
        ghash_fold_spec(h, start, first + second) == ghash_fold_spec(h, ghash_fold_spec(h, start, first), second),
    decreases second.len(),
{
    if second.len() == 0 {
        assert(first + second =~= first);
    } else {
        assert((first + second).drop_last() =~= first + second.drop_last());
        assert((first + second).last() == second.last());
        lemma_ghash_fold_concat(h, start, first, second.drop_last());
    }
}

/// The hash subkey `H`, the cipher's encryption of the zero block.
pub struct HashSubkey(FieldElement);

impl View for HashSubkey {
    type V = Seq<u8>;

    open spec fn view(&self) -> Seq<u8> {
        self.spec_element()@
    }
}

impl HashSubkey {
    /// The subkey as a field element.
    pub closed spec fn spec_element(&self) -> FieldElement {
        self.0
    }

    /// Take ownership of the subkey block.
    pub fn new(block: [u8; BLOCK_BYTES]) -> (subkey: Self)
        ensures
            subkey@ == block@,
    {
        Self(FieldElement::from_owned_block(block))
    }

    /// Borrow the subkey block.
    pub fn as_block(&self) -> (block: &[u8; BLOCK_BYTES])
        ensures
            block@ == self@,
    {
        self.0.as_block()
    }
}

/// A GHASH computation in progress.
pub struct Ghash {
    hash_subkey: HashSubkey,
    accumulator: FieldElement,
}

impl Ghash {
    /// The hash subkey.
    pub closed spec fn spec_subkey(&self) -> Seq<u8> {
        self.hash_subkey@
    }

    /// The current accumulator `Y_i`.
    pub closed spec fn spec_accumulator(&self) -> Seq<u8> {
        self.accumulator@
    }

    /// Start from `Y_0 = 0^128`.
    pub fn new(hash_subkey: HashSubkey) -> (ghash: Self)
        ensures
            ghash.spec_subkey() == hash_subkey@,
            ghash.spec_accumulator() == zero_block_spec(),
    {
        Self { hash_subkey, accumulator: FieldElement::zero() }
    }

    /// Absorb one block: `Y_i = (Y_{i-1} ⊕ X_i) • H`.
    pub fn update_block(&mut self, block: &[u8; BLOCK_BYTES])
        ensures
            final(self).spec_subkey() == old(self).spec_subkey(),
            final(self).spec_accumulator() == gf128_mul_spec(
                xor_block_spec(old(self).spec_accumulator(), block@),
                old(self).spec_subkey(),
            ),
    {
        self.accumulator.add_block(block);
        self.accumulator = multiply(&self.accumulator, &self.hash_subkey.0);
    }

    /// Finish and return `Y_m`.
    pub fn finalize(self) -> (result: GhashResult)
        ensures
            result@ == self.spec_accumulator(),
    {
        GhashResult(self.accumulator)
    }
}

/// The final GHASH block.
pub struct GhashResult(FieldElement);

impl View for GhashResult {
    type V = Seq<u8>;

    open spec fn view(&self) -> Seq<u8> {
        self.spec_element()@
    }
}

impl GhashResult {
    /// The result as a field element.
    pub closed spec fn spec_element(&self) -> FieldElement {
        self.0
    }

    /// Borrow the result block.
    pub fn as_block(&self) -> (block: &[u8; BLOCK_BYTES])
        ensures
            block@ == self@,
    {
        self.0.as_block()
    }

    /// Give up the result block.
    pub fn into_block(self) -> (block: [u8; BLOCK_BYTES])
        ensures
            block@ == self@,
    {
        self.0.into_block()
    }
}

} // verus!
