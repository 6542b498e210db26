//! The GCM counter block and `inc32` (NIST SP 800-38D §6.2): the rightmost 32 bits are a
//! big-endian counter incremented modulo `2^32`; the leftmost 96 bits never change.

use vstd::prelude::*;

verus! {

/// Bytes in a counter block.
const BLOCK_BYTES: usize = 16;

/// Index of the first byte of the 32-bit counter field.
const COUNTER_START: usize = 12;

/// The big-endian value of the counter field, bytes 12..16.
pub open spec fn counter_value_spec(block: Seq<u8>) -> int {
    block[12] as int * 0x100_0000 + block[13] as int * 0x1_0000 + block[14] as int * 0x100 + block[15] as int
}

/// Byte `k`, `0 <= k < 4`, of the big-endian encoding of a 32-bit value.
pub open spec fn be32_byte_spec(value: int, k: int) -> u8 {
    if k == 0 {
        (value / 0x100_0000) as u8
    } else if k == 1 {
        ((value / 0x1_0000) % 0x100) as u8
    } else if k == 2 {
        ((value / 0x100) % 0x100) as u8
    } else {
        (value % 0x100) as u8
    }
}

/// `inc32(X)`: the leftmost 96 bits kept, the rightmost 32 bits incremented modulo `2^32`.
pub open spec fn inc32_spec(block: Seq<u8>) -> Seq<u8> {
    let next = (counter_value_spec(block) + 1) % 0x1_0000_0000;
    Seq::new(16, |j: int| if j < 12 { block[j] } else { be32_byte_spec(next, j - 12) })
}

/// `inc32` applied `n` times.
pub open spec fn inc32_n_spec(block: Seq<u8>, n: nat) -> Seq<u8>
    decreases n,
{
    if n == 0 {
        block
    } else {
        inc32_spec(inc32_n_spec(block, (n - 1) as nat))
    }
}

/// One GCM counter block.
pub struct CounterBlock {
    bytes: [u8; BLOCK_BYTES],
}

impl View for CounterBlock {
    type V = Seq<u8>;

    open spec fn view(&self) -> Seq<u8> {
        self.spec_bytes()@
    }
}

impl CounterBlock {
    /// The block bytes.
    pub closed spec fn spec_bytes(&self) -> [u8; BLOCK_BYTES] {
        self.bytes
    }

    /// Take ownership of a complete counter block.
    pub fn new(bytes: [u8; BLOCK_BYTES]) -> (counter: Self)
        ensures
            counter@ == bytes@,
    {
        Self { bytes }
    }

    /// Apply `inc32` in place.
    pub fn increment(&mut self)
        ensures
            final(self)@ == inc32_spec(old(self)@),
    {
        let current: u32 = self.bytes[COUNTER_START] as u32 * 0x100_0000
            + self.bytes[COUNTER_START + 1] as u32 * 0x1_0000
            + self.bytes[COUNTER_START + 2] as u32 * 0x100
            + self.bytes[COUNTER_START + 3] as u32;
        let incremented = current.wrapping_add(1);
        assert(incremented == (counter_value_spec(old(self)@) + 1) % 0x1_0000_0000);
        self.bytes[COUNTER_START] = (incremented / 0x100_0000) as u8;
        self.bytes[COUNTER_START + 1] = ((incremented / 0x1_0000) % 0x100) as u8;
        self.bytes[COUNTER_START + 2] = ((incremented / 0x100) % 0x100) as u8;
        self.bytes[COUNTER_START + 3] = (incremented % 0x100) as u8;
        assert(self@ =~= inc32_spec(old(self)@));
    }

    /// Borrow the current block.
    pub fn as_block(&self) -> (block: &[u8; BLOCK_BYTES])
        ensures
            block@ == self@,
    {
        &self.bytes
    }
}

} // verus!
