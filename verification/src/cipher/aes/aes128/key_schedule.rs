//! AES key expansion (FIPS 197 §5.2, Algorithm 2) and the AES-128 key schedule.
//!
//! The first `Nk` words are the key. Each later word XORs the word `Nk` positions earlier with a
//! temporary derived from the previous word: at every multiple of `Nk` the temporary is rotated,
//! substituted, and combined with a round constant; for `Nk = 8` a word at position `4 mod 8` is
//! substituted only.

use vstd::prelude::*;

use super::key::{RoundKey, RoundKeySource, WORD_BYTES};
use super::state::BLOCK_LEN;
use super::substitution::{sbox_spec, substitute_byte};
use crate::bits::lemma_xor_u8;
use crate::wipe::wipe_array;

verus! {

/// One four-byte FIPS 197 word.
pub type Word = [u8; WORD_BYTES];

/// `Nk` for AES-128.
const KEY_WORDS: usize = 4;

/// `Nr` for AES-128 (FIPS 197 Table 3).
pub const ROUND_COUNT: usize = 10;

/// `4 * (Nr + 1)` expanded words for AES-128.
const EXPANDED_WORDS: usize = 44;

/// `ROTWORD()`: `[a0, a1, a2, a3]` becomes `[a1, a2, a3, a0]`.
pub open spec fn rot_word_spec(w: Seq<u8>) -> Seq<u8> {
    seq![w[1], w[2], w[3], w[0]]
}

/// `SUBWORD()`: the S-box applied to each byte of a word.
pub open spec fn sub_word_spec(w: Seq<u8>) -> Seq<u8> {
    seq![sbox_spec(w[0]), sbox_spec(w[1]), sbox_spec(w[2]), sbox_spec(w[3])]
}

/// Bytewise XOR of two words.
pub open spec fn xor_word_spec(a: Seq<u8>, b: Seq<u8>) -> Seq<u8> {
    seq![a[0] ^ b[0], a[1] ^ b[1], a[2] ^ b[2], a[3] ^ b[3]]
}

/// The first byte of round constant `Rcon[j]`, `1 <= j <= 10`: `x^(j-1)` in `GF(2^8)`.
pub open spec fn rcon_byte_spec(j: nat) -> u8 {
    if j == 1 { 0x01 }
    else if j == 2 { 0x02 }
    else if j == 3 { 0x04 }
    else if j == 4 { 0x08 }
    else if j == 5 { 0x10 }
    else if j == 6 { 0x20 }
    else if j == 7 { 0x40 }
    else if j == 8 { 0x80 }
    else if j == 9 { 0x1b }
    else { 0x36 }
}

/// `Rcon[j] = [x^(j-1), 0, 0, 0]`.
pub open spec fn rcon_word_spec(j: nat) -> Seq<u8> {
    seq![rcon_byte_spec(j), 0u8, 0u8, 0u8]
}

/// Word `w[i]` of FIPS 197 Algorithm 2 for a key of `nk` words.
pub open spec fn key_word_spec(key: Seq<u8>, nk: nat, i: nat) -> Seq<u8>
    decreases i,
{
    if i < nk || nk == 0 {
        key.subrange(4 * i as int, 4 * i as int + 4)
    } else {
        let previous = key_word_spec(key, nk, (i - 1) as nat);
        let temporary = if i % nk == 0 {
            xor_word_spec(sub_word_spec(rot_word_spec(previous)), rcon_word_spec(i / nk))
        } else if nk > 6 && i % nk == 4 {
            sub_word_spec(previous)
        } else {
            previous
        };
        xor_word_spec(key_word_spec(key, nk, (i - nk) as nat), temporary)
    }
}

/// Round key `r` as a sixteen-byte block: words `4r .. 4r + 3` in order.
pub open spec fn round_key_spec(key: Seq<u8>, nk: nat, r: nat) -> Seq<u8> {
    Seq::new(16, |i: int| key_word_spec(key, nk, 4 * r + (i / 4) as nat)[i % 4])
}

/// The `nr + 1` round keys of a key of `nk` words.
pub open spec fn expanded_round_keys(key: Seq<u8>, nk: nat, nr: nat) -> Seq<Seq<u8>> {
    Seq::new(nr + 1, |r: int| round_key_spec(key, nk, r as nat))
}

/// `ROTWORD()`.
pub fn rotate_word(word: Word) -> (rotated: Word)
    ensures
        rotated@ == rot_word_spec(word@),
{
    let rotated = [word[1], word[2], word[3], word[0]];
    assert(rotated@ =~= rot_word_spec(word@));
    rotated
}

/// `SUBWORD()`.
pub fn substitute_word(word: Word) -> (substituted: Word)
    ensures
        substituted@ == sub_word_spec(word@),
{
    let substituted = [
        substitute_byte(word[0]),
        substitute_byte(word[1]),
        substitute_byte(word[2]),
        substitute_byte(word[3]),
    ];
    assert(substituted@ =~= sub_word_spec(word@));
    substituted
}

/// Bytewise XOR of two words.
pub fn add_words(left: Word, right: Word) -> (sum: Word)
    ensures
        sum@ == xor_word_spec(left@, right@),
{
    let sum = [left[0] ^ right[0], left[1] ^ right[1], left[2] ^ right[2], left[3] ^ right[3]];
    assert(sum@ =~= xor_word_spec(left@, right@));
    sum
}

/// Round constant `Rcon[index + 1]`.
pub fn round_constant(index: usize) -> (constant: Word)
    requires
        index < 10,
    ensures
        constant@ == rcon_word_spec((index + 1) as nat),
{
    let first = if index == 0 {
        0x01
    } else if index == 1 {
        0x02
    } else if index == 2 {
        0x04
    } else if index == 3 {
        0x08
    } else if index == 4 {
        0x10
    } else if index == 5 {
        0x20
    } else if index == 6 {
        0x40
    } else if index == 7 {
        0x80
    } else if index == 8 {
        0x1b
    } else {
        0x36
    };
    let constant = [first, 0, 0, 0];
    assert(constant@ =~= rcon_word_spec((index + 1) as nat));
    constant
}

/// The complete AES-128 key schedule: 44 words in Algorithm 2 order.
pub struct KeySchedule {
    words: [Word; EXPANDED_WORDS],
}

impl KeySchedule {
    /// Word `i` of the schedule.
    pub closed spec fn word(&self, i: int) -> Seq<u8> {
        self.words[i]@
    }

    /// FIPS 197 §5.2 Algorithm 2 for `Nk = 4`.
    pub fn expand(key: &[u8; BLOCK_LEN]) -> (schedule: Self)
        ensures
            schedule.spec_round_keys() == expanded_round_keys(key@, 4, 10),
    {
        let mut words = [[0u8; WORD_BYTES]; EXPANDED_WORDS];
        let mut word_index: usize = 0;
        while word_index < KEY_WORDS
            invariant
                word_index <= 4,
                forall|j: int| 0 <= j < word_index ==> words[j]@ == key_word_spec(key@, 4, j as nat),
            decreases 4 - word_index,
        {
            let first = word_index * WORD_BYTES;
            let word = [key[first], key[first + 1], key[first + 2], key[first + 3]];
            assert(word@ =~= key@.subrange(4 * word_index, 4 * word_index + 4));
            words[word_index] = word;
            word_index = word_index + 1;
        }
        while word_index < EXPANDED_WORDS
            invariant
                4 <= word_index <= 44,
                forall|j: int| 0 <= j < word_index ==> words[j]@ == key_word_spec(key@, 4, j as nat),
            decreases 44 - word_index,
        {
            let mut temporary = words[word_index - 1];
            if word_index % KEY_WORDS == 0 {
                temporary = substitute_word(rotate_word(temporary));
                temporary = add_words(temporary, round_constant(word_index / KEY_WORDS - 1));
            }
            let earlier = words[word_index - KEY_WORDS];
            let mut expanded = add_words(earlier, temporary);
            words[word_index] = expanded;
            wipe_array(&mut expanded);
            word_index = word_index + 1;
        }
        let schedule = Self { words };
        assert(schedule.spec_round_keys() =~= expanded_round_keys(key@, 4, 10)) by {
            assert forall|r: int| 0 <= r < 11 implies #[trigger] schedule.spec_round_keys()[r]
                =~= expanded_round_keys(key@, 4, 10)[r] by {
                assert forall|i: int| 0 <= i < 16 implies schedule.spec_round_keys()[r][i]
                    == expanded_round_keys(key@, 4, 10)[r][i] by {
                    assert(4 * r + i / 4 < 44);
                }
            }
        }
        schedule
    }
}

impl RoundKeySource for KeySchedule {
    open spec fn spec_round_keys(&self) -> Seq<Seq<u8>> {
        Seq::new(11, |r: int| Seq::new(16, |i: int| self.word(4 * r + i / 4)[i % 4]))
    }

    fn round_count(&self) -> (rounds: usize) {
        ROUND_COUNT
    }

    fn round_key(&self, round: usize) -> (round_key: RoundKey) {
        let first = round * 4;
        let round_key = RoundKey::from_words(
            [self.words[first], self.words[first + 1], self.words[first + 2], self.words[first + 3]],
        );
        assert(round_key@ =~= self.spec_round_keys()[round as int]);
        round_key
    }
}

impl KeySchedule {
    /// Word `index` of the schedule.
    pub fn word_at(&self, index: usize) -> (word: Word)
        requires
            index < 44,
        ensures
            word@ == self.word(index as int),
    {
        self.words[index]
    }
}

} // verus!
