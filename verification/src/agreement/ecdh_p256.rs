//! ECDH over P-256: the private scalar (SP 800-56A Rev. 3 §5.6.1.2.2).
//!
//! A private key is a big-endian scalar `d` in `[1, n - 1]`, where `n` is the order of the base
//! point. Generation tests candidates: draw 32 random bytes `c`, retry while `c > n - 2`, and
//! take `d = c + 1`. Public-key derivation and agreement are not part of this module.

use vstd::prelude::*;

use crate::bits::{be64_bytes, be_spec, lemma_be_concat, lemma_pow256_values, load_be64, pow256_spec};
use crate::error::{CryptoError, CryptoResult};
use crate::random::RandomSource;
use crate::secret::SecretBytes;
use crate::wipe::wipe_array;

verus! {

/// Bytes in the big-endian scalar encoding.
pub const SCALAR_BYTES: usize = 32;

/// Candidate draws permitted before generation reports the source as unusable. A candidate
/// exceeds `n - 2` with probability about `2^-32`, so a conforming source never comes near it.
pub const MAX_CANDIDATES: usize = 64;

/// The order `n` of the P-256 base point.
pub open spec fn order_spec() -> int {
    0xffff_ffff_0000_0000_ffff_ffff_ffff_ffff_bce6_faad_a717_9e84_f3b9_cac2_fc63_2551int
}

/// `n` in 64-bit words, most significant first.
pub const ORDER_WORDS: [u64; 4] = [0xffff_ffff_0000_0000, 0xffff_ffff_ffff_ffff, 0xbce6_faad_a717_9e84, 0xf3b9_cac2_fc63_2551];

/// `n - 2` in 64-bit words, most significant first.
pub const ORDER_MINUS_TWO_WORDS: [u64; 4] = [0xffff_ffff_0000_0000, 0xffff_ffff_ffff_ffff, 0xbce6_faad_a717_9e84, 0xf3b9_cac2_fc63_254f];

/// The value of words taken most significant first.
pub open spec fn words_value(w: [u64; 4]) -> int {
    w[0] * 0x1_0000_0000_0000_0000_0000_0000_0000_0000_0000_0000_0000_0000int + w[1] * 0x1_0000_0000_0000_0000_0000_0000_0000_0000int + w[2] * 0x1_0000_0000_0000_0000int + w[3]
}

/// The big-endian words of the scalar bytes.
fn load_words(bytes: &[u8; 32]) -> (words: [u64; 4])
    ensures
        words_value(words) == be_spec(bytes@),
{
    let words = [load_be64(bytes, 0), load_be64(bytes, 8), load_be64(bytes, 16), load_be64(bytes, 24)];
    proof {
        lemma_pow256_values();
        lemma_be_concat(bytes@.subrange(0, 8), bytes@.subrange(8, 16));
        assert(bytes@.subrange(0, 16) =~= bytes@.subrange(0, 8) + bytes@.subrange(8, 16));
        lemma_be_concat(bytes@.subrange(0, 16), bytes@.subrange(16, 24));
        assert(bytes@.subrange(0, 24) =~= bytes@.subrange(0, 16) + bytes@.subrange(16, 24));
        lemma_be_concat(bytes@.subrange(0, 24), bytes@.subrange(24, 32));
        assert(bytes@.subrange(0, 32) =~= bytes@.subrange(0, 24) + bytes@.subrange(24, 32));
        assert(bytes@.subrange(0, 32) =~= bytes@);
    }
    words
}

/// The big-endian bytes of words.
fn store_words(words: [u64; 4]) -> (bytes: [u8; 32])
    ensures
        be_spec(bytes@) == words_value(words),
{
    let c0 = be64_bytes(words[0]);
    let c1 = be64_bytes(words[1]);
    let c2 = be64_bytes(words[2]);
    let c3 = be64_bytes(words[3]);
    let bytes = [
        c0[0], c0[1], c0[2], c0[3], c0[4], c0[5], c0[6], c0[7],
        c1[0], c1[1], c1[2], c1[3], c1[4], c1[5], c1[6], c1[7],
        c2[0], c2[1], c2[2], c2[3], c2[4], c2[5], c2[6], c2[7],
        c3[0], c3[1], c3[2], c3[3], c3[4], c3[5], c3[6], c3[7],
    ];
    proof {
        lemma_pow256_values();
        assert(bytes@.subrange(0, 8) =~= c0@);
        assert(bytes@.subrange(8, 16) =~= c1@);
        assert(bytes@.subrange(16, 24) =~= c2@);
        assert(bytes@.subrange(24, 32) =~= c3@);
        lemma_be_concat(bytes@.subrange(0, 8), bytes@.subrange(8, 16));
        assert(bytes@.subrange(0, 16) =~= bytes@.subrange(0, 8) + bytes@.subrange(8, 16));
        lemma_be_concat(bytes@.subrange(0, 16), bytes@.subrange(16, 24));
        assert(bytes@.subrange(0, 24) =~= bytes@.subrange(0, 16) + bytes@.subrange(16, 24));
        lemma_be_concat(bytes@.subrange(0, 24), bytes@.subrange(24, 32));
        assert(bytes@.subrange(0, 32) =~= bytes@.subrange(0, 24) + bytes@.subrange(24, 32));
        assert(bytes@.subrange(0, 32) =~= bytes@);
    }
    bytes
}

/// Whether `a` is below `b`, comparing words from the most significant.
fn words_less(a: [u64; 4], b: [u64; 4]) -> (less: bool)
    ensures
        less == (words_value(a) < words_value(b)),
{
    if a[0] != b[0] {
        a[0] < b[0]
    }     else if a[1] != b[1] {
        a[1] < b[1]
    }     else if a[2] != b[2] {
        a[2] < b[2]
    } else {
        a[3] < b[3]
    }
}

/// `w + 1`, carried from the least significant word.
fn add_one(w: [u64; 4]) -> (sum: [u64; 4])
    requires
        words_value(w) + 1 < 0x1_0000_0000_0000_0000_0000_0000_0000_0000_0000_0000_0000_0000_0000_0000_0000_0000int,
    ensures
        words_value(sum) == words_value(w) + 1,
{
    let mut carry: u64 = 1;
    let r3 = if w[3] == 0xffff_ffff_ffff_ffff && carry == 1 {
        0
    } else {
        w[3] + carry
    };
    carry = if w[3] == 0xffff_ffff_ffff_ffff && carry == 1 { 1 } else { 0 };
    let r2 = if w[2] == 0xffff_ffff_ffff_ffff && carry == 1 {
        0
    } else {
        w[2] + carry
    };
    carry = if w[2] == 0xffff_ffff_ffff_ffff && carry == 1 { 1 } else { 0 };
    let r1 = if w[1] == 0xffff_ffff_ffff_ffff && carry == 1 {
        0
    } else {
        w[1] + carry
    };
    carry = if w[1] == 0xffff_ffff_ffff_ffff && carry == 1 { 1 } else { 0 };
    let r0 = if w[0] == 0xffff_ffff_ffff_ffff && carry == 1 {
        0
    } else {
        w[0] + carry
    };
    carry = if w[0] == 0xffff_ffff_ffff_ffff && carry == 1 { 1 } else { 0 };
    [r0, r1, r2, r3]
}

/// One candidate of the generation procedure: `c + 1` when `c <= n - 2`, nothing otherwise.
pub fn candidate_to_scalar(candidate: &[u8; 32]) -> (scalar: Option<[u8; 32]>)
    ensures
        be_spec(candidate@) <= order_spec() - 2 ==> (scalar matches Some(d) && be_spec(d@) == be_spec(candidate@) + 1),
        be_spec(candidate@) > order_spec() - 2 ==> scalar is None,
{
    let c = load_words(candidate);
    if words_less(ORDER_MINUS_TWO_WORDS, c) {
        return None;
    }
    Some(store_words(add_one(c)))
}

/// Whether big-endian scalar bytes lie in `[1, n - 1]`.
pub fn scalar_in_range(bytes: &[u8; 32]) -> (in_range: bool)
    ensures
        in_range == (1 <= be_spec(bytes@) < order_spec()),
{
    let w = load_words(bytes);
    words_less([0; 4], w) && words_less(w, ORDER_WORDS)
}

/// One owned P-256 private scalar `d` in `[1, n - 1]`, big-endian.
pub struct EcdhP256PrivateKey {
    bytes: SecretBytes<32>,
}

impl View for EcdhP256PrivateKey {
    type V = Seq<u8>;

    open spec fn view(&self) -> Seq<u8> {
        self.spec_bytes()
    }
}

impl EcdhP256PrivateKey {
    /// Size of the big-endian scalar encoding in bytes.
    pub const LEN: usize = SCALAR_BYTES;

    /// The owned bytes.
    pub closed spec fn spec_bytes(&self) -> Seq<u8> {
        self.bytes@
    }

    /// Take ownership of a big-endian scalar, refusing zero and values `>= n` with
    /// [`CryptoError::InvalidKey`]; refused bytes are cleared.
    pub fn from_bytes(bytes: [u8; 32]) -> (result: CryptoResult<Self>)
        ensures
            result is Err <==> !(1 <= be_spec(bytes@) < order_spec()),
            result is Err ==> result == Err::<Self, CryptoError>(CryptoError::InvalidKey),
            result matches Ok(key) ==> key@ == bytes@,
    {
        let mut bytes = bytes;
        if !scalar_in_range(&bytes) {
            wipe_array(&mut bytes);
            return Err(CryptoError::InvalidKey);
        }
        Ok(Self { bytes: SecretBytes::new(bytes) })
    }

    /// Key generation by testing candidates, with the caller-selected randomness source: the
    /// source's error, the first candidate `c <= n - 2` as `d = c + 1`, or
    /// [`CryptoError::EntropyUnavailable`] after 64 candidates out of range.
    pub fn generate<R: RandomSource>(random: &mut R) -> (result: CryptoResult<Self>)
        ensures
            ({
                let before = old(random).fills();
                let after = final(random).fills();
                let last = after.last();
                &&& before.len() < after.len() <= before.len() + MAX_CANDIDATES
                &&& forall|j: int| 0 <= j < before.len() ==> #[trigger] after[j] == before[j]
                &&& forall|i: int| before.len() <= i < after.len() ==> (#[trigger] after[i]).0.len() == SCALAR_BYTES
                &&& forall|i: int| before.len() <= i < after.len() - 1 ==> #[trigger] after[i].1 is Ok
                    && be_spec(after[i].0) > order_spec() - 2
                &&& last.1 matches Err(error) ==> result == Err::<Self, CryptoError>(error)
                &&& last.1 is Ok && be_spec(last.0) <= order_spec() - 2 ==> (result matches Ok(key)
                    && be_spec(key@) == be_spec(last.0) + 1)
                &&& last.1 is Ok && be_spec(last.0) > order_spec() - 2 ==> after.len() == before.len() + MAX_CANDIDATES
                    && result == Err::<Self, CryptoError>(CryptoError::EntropyUnavailable)
            }),
    {
        let mut attempt: usize = 0;
        while attempt < MAX_CANDIDATES
            invariant
                attempt <= MAX_CANDIDATES,
                random.fills().len() == old(random).fills().len() + attempt,
                forall|j: int| 0 <= j < old(random).fills().len() ==> #[trigger] random.fills()[j] == old(random).fills()[j],
                forall|i: int| old(random).fills().len() <= i < random.fills().len() ==> (#[trigger] random.fills()[i]).0.len() == SCALAR_BYTES,
                forall|i: int| old(random).fills().len() <= i < random.fills().len() ==> #[trigger] random.fills()[i].1 is Ok
                    && be_spec(random.fills()[i].0) > order_spec() - 2,
            decreases MAX_CANDIDATES - attempt,
        {
            let mut candidate = [0u8; 32];
            match random.fill_bytes(&mut candidate) {
                Ok(()) => {},
                Err(error) => {
                    wipe_array(&mut candidate);
                    return Err(error);
                },
            }
            let scalar = candidate_to_scalar(&candidate);
            wipe_array(&mut candidate);
            match scalar {
                Some(d) => {
                    return Ok(Self { bytes: SecretBytes::new(d) });
                },
                None => {},
            }
            attempt = attempt + 1;
        }
        Err(CryptoError::EntropyUnavailable)
    }

    /// Borrow the scalar bytes.
    pub fn scalar_bytes(&self) -> (bytes: &[u8; 32])
        ensures
            bytes@ == self@,
    {
        self.bytes.expose_secret()
    }

    /// The redacted text that stands for this key in diagnostics.
    pub fn debug_text(&self) -> (text: &'static str)
        ensures
            text@ == "EcdhP256PrivateKey([REDACTED])"@,
    {
        "EcdhP256PrivateKey([REDACTED])"
    }
}

} // verus!
