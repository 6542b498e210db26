//! Secret round-key representation and the round-key source shared by AES key sizes.
//!
//! A round key is four words of four bytes (FIPS 197 §3.5 and §5). Word index is the state
//! column and byte-within-word the state row, so `ADDROUNDKEY()` combines `s[r, c]` with
//! `words[c][r]`; as a sixteen-byte block, byte `r + 4c` of the round key is `words[c][r]`.

use vstd::prelude::*;

use super::state::BLOCK_LEN;

verus! {

/// Number of 32-bit words in an AES round key.
pub const WORDS_PER_ROUND_KEY: usize = 4;

/// Number of bytes in one FIPS 197 word.
pub const WORD_BYTES: usize = 4;

/// One AES round key as four words of four bytes each.
pub struct RoundKey {
    words: [[u8; WORD_BYTES]; WORDS_PER_ROUND_KEY],
}

impl RoundKey {
    /// Byte `byte_index` of word `word_index`.
    pub closed spec fn word_byte(&self, word_index: int, byte_index: int) -> u8 {
        self.words[word_index][byte_index]
    }
}

impl View for RoundKey {
    type V = Seq<u8>;

    /// The round key as a sixteen-byte block: byte `4w + b` is byte `b` of word `w`.
    open spec fn view(&self) -> Seq<u8> {
        Seq::new(16, |i: int| self.word_byte(i / 4, i % 4))
    }
}

impl RoundKey {
    /// Copy one key-shaped block into four consecutive words (FIPS 197 §3.5).
    pub fn from_block(key: &[u8; BLOCK_LEN]) -> (round_key: Self)
        ensures
            round_key@ == key@,
    {
        let mut words = [[0u8; WORD_BYTES]; WORDS_PER_ROUND_KEY];
        let mut index: usize = 0;
        while index < BLOCK_LEN
            invariant
                index <= 16,
                forall|i: int| 0 <= i < index ==> words[i / 4][i % 4] == key[i],
            decreases 16 - index,
        {
            words[index / WORD_BYTES][index % WORD_BYTES] = key[index];
            index = index + 1;
        }
        let round_key = Self { words };
        assert(round_key@ =~= key@);
        round_key
    }

    /// Take ownership of four already expanded key-schedule words.
    pub fn from_words(words: [[u8; WORD_BYTES]; WORDS_PER_ROUND_KEY]) -> (round_key: Self)
        ensures
            forall|w: int, b: int| 0 <= w < 4 && 0 <= b < 4 ==> round_key@[4 * w + b] == words[w][b],
    {
        Self { words }
    }

    /// Byte `byte_index` of word `word_index`.
    pub fn byte(&self, word_index: usize, byte_index: usize) -> (b: u8)
        requires
            word_index < 4,
            byte_index < 4,
        ensures
            b == self@[4 * word_index + byte_index],
    {
        self.words[word_index][byte_index]
    }

    /// The four words.
    pub fn words(&self) -> (words: [[u8; WORD_BYTES]; WORDS_PER_ROUND_KEY])
        ensures
            forall|w: int, b: int| 0 <= w < 4 && 0 <= b < 4 ==> words[w][b] == self@[4 * w + b],
    {
        self.words
    }
}

/// An expanded key schedule: `Nr + 1` round keys of sixteen bytes each.
pub trait RoundKeySource {
    /// The round keys, round zero first.
    spec fn spec_round_keys(&self) -> Seq<Seq<u8>>;

    /// `Nr`, the number of rounds.
    fn round_count(&self) -> (rounds: usize)
        ensures
            1 <= rounds <= 14,
            rounds + 1 == self.spec_round_keys().len(),
            forall|r: int| 0 <= r <= rounds ==> #[trigger] self.spec_round_keys()[r].len() == 16,
    ;

    /// Round key `round`.
    fn round_key(&self, round: usize) -> (round_key: RoundKey)
        requires
            round < self.spec_round_keys().len(),
        ensures
            round_key@ == self.spec_round_keys()[round as int],
    ;
}

} // verus!
