//! Typed ChaCha20 key and nonce, one-shot keystream application, and the stateful stream.
//!
//! Block `j` of the keystream is the block function at `counter + j`, and each input byte is
//! XORed with the keystream byte at its position (RFC 8439 §2.4). The 32-bit counter never
//! wraps: an input that would need a counter past `2^32 - 1` is refused with
//! [`CryptoError::CounterExhausted`] before any byte changes.

use vstd::prelude::*;

use super::block::{BLOCK_BYTES, KEY_BYTES, NONCE_BYTES, State, keystream_block_spec};
use crate::cipher::StreamCipher;
use crate::error::{CryptoError, CryptoResult};
use crate::random::{RandomSource, filled_outcome, generated_outcome};
use crate::secret::SecretBytes;
use crate::wipe::wipe_array;

verus! {

/// Keystream bytes available under one nonce: `2^32` blocks of 64 bytes.
pub const KEYSTREAM_LIMIT: u64 = 0x40_0000_0000;

/// Keystream byte at absolute position `position` (block `position / 64`, offset
/// `position % 64`).
pub open spec fn keystream_byte_spec(key: Seq<u8>, nonce: Seq<u8>, position: int) -> u8 {
    keystream_block_spec(key, (position / 64) as u32, nonce)[position % 64]
}

/// `data` XORed with the keystream starting at absolute position `start`.
pub open spec fn xor_keystream_spec(key: Seq<u8>, nonce: Seq<u8>, start: int, data: Seq<u8>) -> Seq<u8> {
    Seq::new(data.len(), |i: int| data[i] ^ keystream_byte_spec(key, nonce, start + i))
}

/// Applying the keystream to two consecutive pieces equals applying it to their concatenation.
pub proof fn lemma_xor_keystream_splits(key: Seq<u8>, nonce: Seq<u8>, start: int, first: Seq<u8>, second: Seq<u8>)
    ensures
        xor_keystream_spec(key, nonce, start, first + second)
            == xor_keystream_spec(key, nonce, start, first)
            + xor_keystream_spec(key, nonce, start + first.len(), second),
{
    assert(xor_keystream_spec(key, nonce, start, first + second)
        =~= xor_keystream_spec(key, nonce, start, first)
        + xor_keystream_spec(key, nonce, start + first.len(), second));
}

/// Pieces of a message, each XORed with the keystream where it lies in the message.
pub open spec fn xor_pieces_spec(key: Seq<u8>, nonce: Seq<u8>, start: int, pieces: Seq<Seq<u8>>) -> Seq<u8>
    decreases pieces.len(),
{
    if pieces.len() == 0 {
        Seq::empty()
    } else {
        xor_keystream_spec(key, nonce, start, pieces[0])
            + xor_pieces_spec(key, nonce, start + pieces[0].len(), pieces.drop_first())
    }
}

/// However a message is split into pieces, applying the keystream piece by piece, each from
/// where it lies in the message, equals applying it to the whole message.
pub proof fn lemma_xor_keystream_any_split(key: Seq<u8>, nonce: Seq<u8>, start: int, pieces: Seq<Seq<u8>>)
    ensures
        xor_pieces_spec(key, nonce, start, pieces) == xor_keystream_spec(key, nonce, start, pieces.flatten()),
    decreases pieces.len(),
{
    if pieces.len() == 0 {
        assert(xor_keystream_spec(key, nonce, start, pieces.flatten()) =~= Seq::<u8>::empty());
    } else {
        lemma_xor_keystream_any_split(key, nonce, start + pieces[0].len(), pieces.drop_first());
        lemma_xor_keystream_splits(key, nonce, start, pieces[0], pieces.drop_first().flatten());
        assert(pieces.flatten() == pieces[0] + pieces.drop_first().flatten());
    }
}

/// Applying the keystream twice from the same position gives the input back.
pub proof fn lemma_xor_keystream_twice(key: Seq<u8>, nonce: Seq<u8>, start: int, data: Seq<u8>)
    ensures
        xor_keystream_spec(key, nonce, start, xor_keystream_spec(key, nonce, start, data)) == data,
{
    assert forall|i: int| 0 <= i < data.len() implies xor_keystream_spec(key, nonce, start, xor_keystream_spec(key, nonce, start, data))[i] == data[i] by {
        crate::bits::lemma_xor_u8(data[i], keystream_byte_spec(key, nonce, start + i), 0u8);
    }
    assert(xor_keystream_spec(key, nonce, start, xor_keystream_spec(key, nonce, start, data)) =~= data);
}

/// Position `64 * block + offset` lies in block `block` at `offset`.
proof fn lemma_position_in_block(block: int, offset: int)
    requires
        0 <= offset < 64,
    ensures
        (64 * block + offset) / 64 == block,
        (64 * block + offset) % 64 == offset,
{
    assert((64 * block + offset) / 64 == block) by (nonlinear_arith)
        requires 0 <= offset < 64;
    assert((64 * block + offset) % 64 == offset) by (nonlinear_arith)
        requires 0 <= offset < 64;
}

/// One owned 256-bit ChaCha20 key, consumed by [`ChaCha20::new`].
pub struct ChaCha20Key {
    bytes: SecretBytes<KEY_BYTES>,
}

impl View for ChaCha20Key {
    type V = Seq<u8>;

    open spec fn view(&self) -> Seq<u8> {
        self.spec_secret()@
    }
}

impl ChaCha20Key {
    /// Size of a ChaCha20 key in bytes.
    pub const LEN: usize = 32;

    /// The owned key bytes.
    pub closed spec fn spec_secret(&self) -> SecretBytes<KEY_BYTES> {
        self.bytes
    }

    /// Take ownership of exactly 256 key bits.
    pub fn new(bytes: [u8; KEY_BYTES]) -> (key: Self)
        ensures
            key@ == bytes@,
    {
        Self { bytes: SecretBytes::new(bytes) }
    }

    /// Generate a key with the caller-selected randomness source. On failure the partially
    /// filled temporary is cleared and the source's error is returned.
    pub fn generate<R: RandomSource>(random: &mut R) -> (result: CryptoResult<Self>)
        ensures
            final(random).fills() == old(random).fills().push(final(random).fills().last()),
            generated_outcome(result) == filled_outcome(final(random).fills().last()),
            final(random).fills().last().0.len() == KEY_BYTES,
    {
        let mut bytes = [0u8; KEY_BYTES];
        match random.fill_bytes(&mut bytes) {
            Ok(()) => Ok(Self::new(bytes)),
            Err(error) => {
                wipe_array(&mut bytes);
                Err(error)
            },
        }
    }

    /// The redacted text that stands for this key in diagnostics.
    pub fn debug_text(&self) -> (text: &'static str)
        ensures
            text@ == "ChaCha20Key([REDACTED])"@,
    {
        "ChaCha20Key([REDACTED])"
    }
}

/// One public 96-bit ChaCha20 nonce.
#[derive(Clone, Copy, Debug, PartialEq, Eq, Hash)]
pub struct ChaCha20Nonce([u8; NONCE_BYTES]);

impl View for ChaCha20Nonce {
    type V = Seq<u8>;

    open spec fn view(&self) -> Seq<u8> {
        self.spec_bytes()@
    }
}

impl AsRef<[u8]> for ChaCha20Nonce {
    /// Borrow the nonce bytes as a slice.
    fn as_ref(&self) -> (bytes: &[u8])
        ensures
            bytes@ == self@,
    {
        self.0.as_slice()
    }
}

impl ChaCha20Nonce {
    /// Size of a ChaCha20 nonce in bytes.
    pub const LEN: usize = 12;

    /// The nonce bytes.
    pub closed spec fn spec_bytes(&self) -> [u8; NONCE_BYTES] {
        self.0
    }

    /// Wrap exactly twelve nonce bytes.
    pub fn new(bytes: [u8; NONCE_BYTES]) -> (nonce: Self)
        ensures
            nonce.spec_bytes() == bytes,
    {
        Self(bytes)
    }

    /// Borrow the nonce bytes.
    pub fn as_bytes(&self) -> (bytes: &[u8; NONCE_BYTES])
        ensures
            *bytes == self.spec_bytes(),
    {
        &self.0
    }

    /// Return the nonce bytes.
    pub fn into_bytes(self) -> (bytes: [u8; NONCE_BYTES])
        ensures
            bytes == self.spec_bytes(),
    {
        self.0
    }
}

/// ChaCha20 under one key. The key owner is moved in; each call names its own counter and
/// nonce.
pub struct ChaCha20 {
    key: SecretBytes<KEY_BYTES>,
}

impl ChaCha20 {
    /// The key bytes.
    pub closed spec fn spec_key(&self) -> Seq<u8> {
        self.key@
    }

    /// Consume one key.
    pub fn new(key: ChaCha20Key) -> (cipher: Self)
        ensures
            cipher.spec_key() == key@,
    {
        Self { key: key.bytes }
    }

    /// The 64-byte keystream block for `counter` and `nonce`.
    pub fn keystream_block(&self, counter: u32, nonce: &ChaCha20Nonce) -> (block: [u8; BLOCK_BYTES])
        ensures
            block@ == keystream_block_spec(self.spec_key(), counter, nonce@),
    {
        State::new(self.key.expose_secret(), counter, nonce.as_bytes()).keystream_block()
    }

    /// XOR the keystream starting at block `initial_counter` into `buffer`.
    ///
    /// Fails with [`CryptoError::CounterExhausted`], leaving `buffer` unchanged, exactly when the
    /// last block the buffer needs would lie past counter `2^32 - 1`.
    pub fn apply_keystream(&self, initial_counter: u32, nonce: &ChaCha20Nonce, buffer: &mut [u8]) -> (result: CryptoResult<()>)
        ensures
            64 * initial_counter + old(buffer)@.len() <= KEYSTREAM_LIMIT ==> result is Ok
                && final(buffer)@ == xor_keystream_spec(self.spec_key(), nonce@, 64 * initial_counter, old(buffer)@),
            64 * initial_counter + old(buffer)@.len() > KEYSTREAM_LIMIT ==> result == Err::<(), CryptoError>(CryptoError::CounterExhausted)
                && final(buffer)@ == old(buffer)@,
    {
        let length = buffer.len();
        let full_blocks = length / BLOCK_BYTES;
        let blocks: usize = if length % BLOCK_BYTES == 0 { full_blocks } else { full_blocks + 1 };
        if blocks > 0 && initial_counter as u64 + (blocks as u64 - 1) > u32::MAX as u64 {
            return Err(CryptoError::CounterExhausted);
        }
        let ghost key = self.spec_key();
        let ghost start = 64 * initial_counter;
        let ghost initial = buffer@;
        let mut counter = initial_counter;
        let mut offset: usize = 0;
        while offset < length
            invariant
                length == buffer@.len(),
                initial.len() == length,
                key == self.spec_key(),
                start == 64 * initial_counter,
                offset <= length,
                offset < length ==> offset % 64 == 0 && counter == initial_counter + offset / 64,
                blocks == (if length % 64 == 0 { length / 64 } else { (length / 64 + 1) as usize }),
                blocks > 0 ==> initial_counter + blocks - 1 <= u32::MAX,
                forall|i: int| 0 <= i < offset && i < length ==> buffer@[i] == initial[i] ^ keystream_byte_spec(key, nonce@, start + i),
                forall|i: int| offset <= i < length ==> buffer@[i] == initial[i],
            decreases length - offset,
        {
            let mut keystream = self.keystream_block(counter, nonce);
            let remaining = length - offset;
            let chunk = if remaining < BLOCK_BYTES { remaining } else { BLOCK_BYTES };
            let mut index: usize = 0;
            while index < chunk
                invariant
                    length == buffer@.len(),
                    initial.len() == length,
                    chunk == (if length - offset < 64 { (length - offset) as usize } else { 64usize }),
                    offset + chunk <= length,
                    start == 64 * initial_counter,
                    offset % 64 == 0,
                    counter == initial_counter + offset / 64,
                    keystream@ == keystream_block_spec(key, counter, nonce@),
                    index <= chunk,
                    forall|i: int| 0 <= i < offset + index ==> buffer@[i] == initial[i] ^ keystream_byte_spec(key, nonce@, start + i),
                    forall|i: int| offset + index <= i < length ==> buffer@[i] == initial[i],
                decreases chunk - index,
            {
                proof {
                    lemma_position_in_block(initial_counter + offset / 64, index as int);
                    assert(offset == 64 * (offset / 64)) by (nonlinear_arith)
                        requires offset % 64 == 0;
                    assert(start + offset + index == 64 * (initial_counter + offset / 64) + index);
                }
                buffer[offset + index] = buffer[offset + index] ^ keystream[index];
                index = index + 1;
            }
            wipe_array(&mut keystream);
            let ghost previous = offset;
            offset = offset + chunk;
            if offset < length {
                assert(offset / 64 == previous / 64 + 1 && offset % 64 == 0) by (nonlinear_arith)
                    requires offset == previous + 64, previous % 64 == 0;
                counter = counter + 1;
            }
        }
        assert(buffer@ =~= xor_keystream_spec(key, nonce@, start, initial));
        Ok(())
    }

    /// Return a fresh vector holding `data` XORed with the keystream from `initial_counter`.
    pub fn encrypt(&self, initial_counter: u32, nonce: &ChaCha20Nonce, data: &[u8]) -> (result: CryptoResult<Vec<u8>>)
        ensures
            64 * initial_counter + data@.len() <= KEYSTREAM_LIMIT ==> (result matches Ok(output)
                && output@ == xor_keystream_spec(self.spec_key(), nonce@, 64 * initial_counter, data@)),
            64 * initial_counter + data@.len() > KEYSTREAM_LIMIT ==> result == Err::<Vec<u8>, CryptoError>(CryptoError::CounterExhausted),
    {
        let mut output = vstd::slice::slice_to_vec(data);
        match self.apply_keystream(initial_counter, nonce, output.as_mut_slice()) {
            Ok(()) => Ok(output),
            Err(error) => Err(error),
        }
    }

    /// Turn this cipher into a stream that starts at block `initial_counter` under `nonce`.
    pub fn stream(self, nonce: ChaCha20Nonce, initial_counter: u32) -> (stream: ChaCha20Stream)
        ensures
            stream.wf(),
            stream.spec_key() == self.spec_key(),
            stream.spec_nonce() == nonce@,
            stream.position() == 64 * initial_counter,
    {
        ChaCha20Stream {
            cipher: self,
            nonce,
            next_counter: Some(initial_counter),
            buffered: [0; BLOCK_BYTES],
            buffered_offset: BLOCK_BYTES,
        }
    }

    /// The redacted text that stands for this cipher in diagnostics.
    pub fn debug_text(&self) -> (text: &'static str)
        ensures
            text@ == "ChaCha20([REDACTED KEY])"@,
    {
        "ChaCha20([REDACTED KEY])"
    }
}

/// A ChaCha20 keystream consumed across calls, remembering its place inside the current block.
pub struct ChaCha20Stream {
    cipher: ChaCha20,
    nonce: ChaCha20Nonce,
    next_counter: Option<u32>,
    buffered: [u8; BLOCK_BYTES],
    buffered_offset: usize,
}

impl ChaCha20Stream {
    /// The key bytes.
    pub closed spec fn spec_key(&self) -> Seq<u8> {
        self.cipher.spec_key()
    }

    /// The nonce bytes.
    pub closed spec fn spec_nonce(&self) -> Seq<u8> {
        self.nonce@
    }

    /// The next counter as an integer, `2^32` once every counter has been used.
    closed spec fn next_block(&self) -> int {
        match self.next_counter {
            Some(counter) => counter as int,
            None => 0x1_0000_0000,
        }
    }

    /// The absolute keystream position of the next byte to be used.
    pub closed spec fn position(&self) -> int {
        64 * (self.next_block() - 1) + self.buffered_offset
    }

    /// The buffered block is the block before the next counter, and the position lies within
    /// the keystream.
    pub closed spec fn wf(&self) -> bool {
        &&& self.buffered_offset <= 64
        &&& self.buffered_offset < 64 ==> 1 <= self.next_block() && self.buffered@
            == keystream_block_spec(self.spec_key(), (self.next_block() - 1) as u32, self.spec_nonce())
        &&& 0 <= self.position() <= KEYSTREAM_LIMIT
    }

    /// XOR the next keystream bytes into `buffer`.
    ///
    /// Fails with [`CryptoError::CounterExhausted`], changing neither the buffer nor the stream,
    /// exactly when the buffer would need keystream past counter `2^32 - 1`.
    pub fn apply_keystream(&mut self, buffer: &mut [u8]) -> (result: CryptoResult<()>)
        requires
            old(self).wf(),
        ensures
            final(self).wf(),
            final(self).spec_key() == old(self).spec_key(),
            final(self).spec_nonce() == old(self).spec_nonce(),
            old(self).position() + old(buffer)@.len() <= KEYSTREAM_LIMIT ==> result is Ok
                && final(buffer)@ == xor_keystream_spec(old(self).spec_key(), old(self).spec_nonce(), old(self).position(), old(buffer)@)
                && final(self).position() == old(self).position() + old(buffer)@.len(),
            old(self).position() + old(buffer)@.len() > KEYSTREAM_LIMIT ==> result == Err::<(), CryptoError>(CryptoError::CounterExhausted)
                && final(buffer)@ == old(buffer)@
                && final(self).position() == old(self).position(),
    {
        let next: u64 = match self.next_counter {
            Some(counter) => counter as u64,
            None => 0x1_0000_0000,
        };
        let position: u64 = 64 * next + self.buffered_offset as u64 - 64;
        if buffer.len() as u64 > KEYSTREAM_LIMIT - position {
            return Err(CryptoError::CounterExhausted);
        }
        let ghost key = self.spec_key();
        let ghost nonce = self.spec_nonce();
        let ghost start = self.position();
        let ghost initial = buffer@;
        let length = buffer.len();
        let mut index: usize = 0;
        while index < length
            invariant
                self.wf(),
                self.spec_key() == key,
                self.spec_nonce() == nonce,
                length == buffer@.len(),
                initial.len() == length,
                start + length <= KEYSTREAM_LIMIT,
                self.position() == start + index,
                index <= length,
                forall|i: int| 0 <= i < index ==> buffer@[i] == initial[i] ^ keystream_byte_spec(key, nonce, start + i),
                forall|i: int| index <= i < length ==> buffer@[i] == initial[i],
            decreases length - index,
        {
            if self.buffered_offset == BLOCK_BYTES {
                let counter = match self.next_counter {
                    Some(counter) => counter,
                    None => {
                        return Err(CryptoError::CounterExhausted);
                    },
                };
                self.buffered = self.cipher.keystream_block(counter, &self.nonce);
                self.buffered_offset = 0;
                self.next_counter = counter.checked_add(1);
            }
            proof {
                lemma_position_in_block(self.next_block() - 1, self.buffered_offset as int);
            }
            buffer[index] = buffer[index] ^ self.buffered[self.buffered_offset];
            self.buffered_offset = self.buffered_offset + 1;
            index = index + 1;
        }
        assert(buffer@ =~= xor_keystream_spec(key, nonce, start, initial));
        Ok(())
    }

    /// The redacted text that stands for this stream in diagnostics.
    pub fn debug_text(&self) -> (text: &'static str)
        ensures
            text@ == "ChaCha20Stream { keystream: \"[REDACTED]\", .. }"@,
    {
        "ChaCha20Stream { keystream: \"[REDACTED]\", .. }"
    }
}

impl StreamCipher for ChaCha20Stream {
    open spec fn ready(&self) -> bool {
        self.wf()
    }

    fn apply_keystream(&mut self, buffer: &mut [u8]) -> (result: CryptoResult<()>) {
        ChaCha20Stream::apply_keystream(self, buffer)
    }
}

} // verus!
