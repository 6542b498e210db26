//! The ChaCha20 state and block function (RFC 8439 §2.3).
//!
//! The state is four constant words, eight little-endian key words, the block counter, and three
//! little-endian nonce words. Twenty rounds (ten column-and-diagonal double rounds) are applied to
//! a working copy, the initial state is added word by word, and the sixteen words are serialized
//! little-endian.

use vstd::prelude::*;
use vstd::wrapping::u32_specs::wrapping_add;

use super::quarter_round::{STATE_WORDS, quarter_round_on_state, quarter_round_on_state_spec};

verus! {

/// Bytes in a ChaCha20 key.
pub const KEY_BYTES: usize = 32;

/// Bytes in a ChaCha20 nonce.
pub const NONCE_BYTES: usize = 12;

/// Bytes in one keystream block.
pub const BLOCK_BYTES: usize = 64;

/// The constant word `index` ("expand 32-byte k"), `0 <= index < 4`.
pub open spec fn constant_word_spec(index: int) -> u32 {
    if index == 0 {
        0x6170_7865
    } else if index == 1 {
        0x3320_646e
    } else if index == 2 {
        0x7962_2d32
    } else {
        0x6b20_6574
    }
}

/// The little-endian word formed by `bytes[at .. at + 4]`.
pub open spec fn le_word_spec(bytes: Seq<u8>, at: int) -> u32 {
    (bytes[at] as int + bytes[at + 1] as int * 0x100 + bytes[at + 2] as int * 0x1_0000
        + bytes[at + 3] as int * 0x100_0000) as u32
}

/// Byte `j`, `0 <= j < 4`, of the little-endian encoding of `word`.
pub open spec fn word_byte_spec(word: u32, j: int) -> u8 {
    if j == 0 {
        (word % 0x100) as u8
    } else if j == 1 {
        ((word / 0x100) % 0x100) as u8
    } else if j == 2 {
        ((word / 0x1_0000) % 0x100) as u8
    } else {
        (word / 0x100_0000) as u8
    }
}

/// The initial state for `key`, `counter`, and `nonce` (RFC 8439 §2.3).
pub open spec fn initial_state_spec(key: Seq<u8>, counter: u32, nonce: Seq<u8>) -> Seq<u32> {
    Seq::new(
        16,
        |i: int|
            if i < 4 {
                constant_word_spec(i)
            } else if i < 12 {
                le_word_spec(key, 4 * (i - 4))
            } else if i == 12 {
                counter
            } else {
                le_word_spec(nonce, 4 * (i - 13))
            },
    )
}

/// One column round followed by one diagonal round.
pub open spec fn double_round_spec(s: Seq<u32>) -> Seq<u32> {
    let s = quarter_round_on_state_spec(s, 0, 4, 8, 12);
    let s = quarter_round_on_state_spec(s, 1, 5, 9, 13);
    let s = quarter_round_on_state_spec(s, 2, 6, 10, 14);
    let s = quarter_round_on_state_spec(s, 3, 7, 11, 15);
    let s = quarter_round_on_state_spec(s, 0, 5, 10, 15);
    let s = quarter_round_on_state_spec(s, 1, 6, 11, 12);
    let s = quarter_round_on_state_spec(s, 2, 7, 8, 13);
    quarter_round_on_state_spec(s, 3, 4, 9, 14)
}

/// `n` double rounds applied to `s`.
pub open spec fn double_rounds_spec(s: Seq<u32>, n: nat) -> Seq<u32>
    decreases n,
{
    if n == 0 {
        s
    } else {
        double_round_spec(double_rounds_spec(s, (n - 1) as nat))
    }
}

/// The sixteen output words: the state after twenty rounds plus the initial state.
pub open spec fn block_words_spec(s: Seq<u32>) -> Seq<u32> {
    Seq::new(16, |i: int| wrapping_add(s[i], double_rounds_spec(s, 10)[i]))
}

/// The little-endian serialization of sixteen words.
pub open spec fn serialize_spec(words: Seq<u32>) -> Seq<u8> {
    Seq::new(64, |i: int| word_byte_spec(words[i / 4], i % 4))
}

/// The 64-byte keystream block for `key`, `counter`, and `nonce`.
pub open spec fn keystream_block_spec(key: Seq<u8>, counter: u32, nonce: Seq<u8>) -> Seq<u8> {
    serialize_spec(block_words_spec(initial_state_spec(key, counter, nonce)))
}

/// The little-endian word formed by four bytes.
fn load_le_word(b0: u8, b1: u8, b2: u8, b3: u8) -> (word: u32)
    ensures
        word == (b0 as int + b1 as int * 0x100 + b2 as int * 0x1_0000 + b3 as int * 0x100_0000),
{
    b0 as u32 + b1 as u32 * 0x100 + b2 as u32 * 0x1_0000 + b3 as u32 * 0x100_0000
}

/// The ChaCha20 state of sixteen words.
pub struct State {
    words: [u32; STATE_WORDS],
}

impl View for State {
    type V = Seq<u32>;

    open spec fn view(&self) -> Seq<u32> {
        self.spec_words()@
    }
}

impl State {
    /// The sixteen words.
    pub closed spec fn spec_words(&self) -> [u32; STATE_WORDS] {
        self.words
    }

    /// Lay out constants, key, counter, and nonce as RFC 8439 §2.3 specifies.
    pub fn new(key: &[u8; KEY_BYTES], counter: u32, nonce: &[u8; NONCE_BYTES]) -> (state: Self)
        ensures
            state@ == initial_state_spec(key@, counter, nonce@),
    {
        let mut words = [0u32; STATE_WORDS];
        words[0] = 0x6170_7865;
        words[1] = 0x3320_646e;
        words[2] = 0x7962_2d32;
        words[3] = 0x6b20_6574;
        let mut index: usize = 0;
        while index < 8
            invariant
                index <= 8,
                forall|i: int| 0 <= i < 4 ==> words[i] == constant_word_spec(i),
                forall|i: int| 4 <= i < 4 + index ==> words[i] == le_word_spec(key@, 4 * (i - 4)),
            decreases 8 - index,
        {
            let first = 4 * index;
            words[4 + index] = load_le_word(key[first], key[first + 1], key[first + 2], key[first + 3]);
            index = index + 1;
        }
        words[12] = counter;
        let mut index: usize = 0;
        while index < 3
            invariant
                index <= 3,
                forall|i: int| 0 <= i < 4 ==> words[i] == constant_word_spec(i),
                forall|i: int| 4 <= i < 12 ==> words[i] == le_word_spec(key@, 4 * (i - 4)),
                words[12] == counter,
                forall|i: int| 13 <= i < 13 + index ==> words[i] == le_word_spec(nonce@, 4 * (i - 13)),
            decreases 3 - index,
        {
            let first = 4 * index;
            words[13 + index] = load_le_word(nonce[first], nonce[first + 1], nonce[first + 2], nonce[first + 3]);
            index = index + 1;
        }
        let state = Self { words };
        assert(state@ =~= initial_state_spec(key@, counter, nonce@));
        state
    }

    /// One column round followed by one diagonal round.
    fn double_round(&mut self)
        ensures
            final(self)@ == double_round_spec(old(self)@),
    {
        quarter_round_on_state(&mut self.words, 0, 4, 8, 12);
        quarter_round_on_state(&mut self.words, 1, 5, 9, 13);
        quarter_round_on_state(&mut self.words, 2, 6, 10, 14);
        quarter_round_on_state(&mut self.words, 3, 7, 11, 15);
        quarter_round_on_state(&mut self.words, 0, 5, 10, 15);
        quarter_round_on_state(&mut self.words, 1, 6, 11, 12);
        quarter_round_on_state(&mut self.words, 2, 7, 8, 13);
        quarter_round_on_state(&mut self.words, 3, 4, 9, 14);
    }

    /// The working state after twenty rounds, before the initial state is added back.
    pub fn after_twenty_rounds(&self) -> (words: [u32; STATE_WORDS])
        ensures
            words@ == double_rounds_spec(self@, 10),
    {
        let mut working = State { words: self.words };
        let mut round: usize = 0;
        while round < 10
            invariant
                round <= 10,
                working@ == double_rounds_spec(self@, round as nat),
            decreases 10 - round,
        {
            working.double_round();
            round = round + 1;
        }
        working.words
    }

    /// The 64-byte keystream block of this state.
    pub fn keystream_block(&self) -> (block: [u8; BLOCK_BYTES])
        ensures
            block@ == serialize_spec(block_words_spec(self@)),
    {
        let worked = self.after_twenty_rounds();
        let mut output = [0u8; BLOCK_BYTES];
        let mut index: usize = 0;
        while index < STATE_WORDS
            invariant
                index <= 16,
                worked@ == double_rounds_spec(self@, 10),
                forall|i: int| 0 <= i < 4 * index ==> output[i] == serialize_spec(block_words_spec(self@))[i],
            decreases 16 - index,
        {
            let word = self.words[index].wrapping_add(worked[index]);
            assert(word == block_words_spec(self@)[index as int]);
            let first = 4 * index;
            output[first] = (word % 0x100) as u8;
            output[first + 1] = ((word / 0x100) % 0x100) as u8;
            output[first + 2] = ((word / 0x1_0000) % 0x100) as u8;
            output[first + 3] = (word / 0x100_0000) as u8;
            index = index + 1;
        }
        assert(output@ =~= serialize_spec(block_words_spec(self@)));
        output
    }

    /// The sixteen state words.
    pub fn words(&self) -> (words: &[u32; STATE_WORDS])
        ensures
            words@ == self@,
    {
        &self.words
    }
}

} // verus!
