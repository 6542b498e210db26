//! FIPS 197 Algorithm 2 for `Nk = 8`: sixty expanded words.

use vstd::prelude::*;

use crate::cipher::aes::aes128::key::{RoundKey, RoundKeySource, WORD_BYTES};
use crate::cipher::aes::aes128::key_schedule::{
    Word, add_words, expanded_round_keys, key_word_spec, rotate_word, round_constant,
    substitute_word,
};
use crate::wipe::wipe_array;

verus! {

/// `Nk` for AES-256.
const KEY_WORDS: usize = 8;

/// `Nr` for AES-256 (FIPS 197 Table 3).
pub const ROUND_COUNT: usize = 14;

/// `4 * (Nr + 1)` expanded words.
const EXPANDED_WORDS: usize = 60;

/// Bytes in an AES-256 key.
pub const KEY_LEN: usize = 32;

/// The complete AES-256 key schedule: 60 words in Algorithm 2 order.
pub struct KeySchedule {
    words: [Word; EXPANDED_WORDS],
}

impl KeySchedule {
    /// Word `i` of the schedule.
    pub closed spec fn word(&self, i: int) -> Seq<u8> {
        self.words[i]@
    }

    /// FIPS 197 §5.2 Algorithm 2 for `Nk = 8`.
    pub fn expand(key: &[u8; KEY_LEN]) -> (schedule: Self)
        ensures
            schedule.spec_round_keys() == expanded_round_keys(key@, 8, 14),
    {
        let mut words = [[0u8; WORD_BYTES]; EXPANDED_WORDS];
        let mut word_index: usize = 0;
        while word_index < KEY_WORDS
            invariant
                word_index <= 8,
                forall|j: int| 0 <= j < word_index ==> words[j]@ == key_word_spec(key@, 8, j as nat),
            decreases 8 - word_index,
        {
            let first = word_index * WORD_BYTES;
            let word = [key[first], key[first + 1], key[first + 2], key[first + 3]];
            assert(word@ =~= key@.subrange(4 * word_index, 4 * word_index + 4));
            words[word_index] = word;
            word_index = word_index + 1;
        }
        while word_index < EXPANDED_WORDS
            invariant
                8 <= word_index <= 60,
                forall|j: int| 0 <= j < word_index ==> words[j]@ == key_word_spec(key@, 8, j as nat),
            decreases 60 - word_index,
        {
            let mut temporary = words[word_index - 1];
            if word_index % KEY_WORDS == 0 {
                temporary = substitute_word(rotate_word(temporary));
                temporary = add_words(temporary, round_constant(word_index / KEY_WORDS - 1));
            } else if word_index % KEY_WORDS == 4 {
                temporary = substitute_word(temporary);
            }
            let earlier = words[word_index - KEY_WORDS];
            let mut expanded = add_words(earlier, temporary);
            words[word_index] = expanded;
            wipe_array(&mut expanded);
            word_index = word_index + 1;
        }
        let schedule = Self { words };
        assert(schedule.spec_round_keys() =~= expanded_round_keys(key@, 8, 14)) by {
            assert forall|r: int| 0 <= r < 15 implies #[trigger] schedule.spec_round_keys()[r]
                =~= expanded_round_keys(key@, 8, 14)[r] by {
                assert forall|i: int| 0 <= i < 16 implies schedule.spec_round_keys()[r][i]
                    == expanded_round_keys(key@, 8, 14)[r][i] by {
                    assert(4 * r + i / 4 < 60);
                }
            }
        }
        schedule
    }

    /// Word `index` of the schedule.
    pub fn word_at(&self, index: usize) -> (word: Word)
        requires
            index < 60,
        ensures
            word@ == self.word(index as int),
    {
        self.words[index]
    }
}

impl RoundKeySource for KeySchedule {
    open spec fn spec_round_keys(&self) -> Seq<Seq<u8>> {
        Seq::new(15, |r: int| Seq::new(16, |i: int| self.word(4 * r + i / 4)[i % 4]))
    }

    fn round_count(&self) -> (rounds: usize) {
        ROUND_COUNT
    }

    fn round_key(&self, round: usize) -> (round_key: RoundKey) {
        let first = round * 4;
        let round_key = RoundKey::from_words(
            [self.words[first], self.words[first + 1], self.words[first + 2], self.words[first + 3]],
        );
        assert(round_key@ =~= self.spec_round_keys()[round as int]);
        round_key
    }
}

} // verus!
