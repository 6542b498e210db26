//! Incremental fixed-size block assembly: bytes arrive in arbitrary fragments and leave as
//! complete blocks, with the incomplete tail kept until more input arrives.

use vstd::prelude::*;

use crate::wipe::wipe_array;

verus! {

/// The complete blocks of `data`, in order.
pub open spec fn blocks_spec(data: Seq<u8>, block_len: int) -> Seq<Seq<u8>> {
    Seq::new(((data.len() as int) / block_len) as nat, |k: int| data.subrange(k * block_len, k * block_len + block_len))
}

/// The bytes of `data` after its last complete block.
pub open spec fn tail_spec(data: Seq<u8>, block_len: int) -> Seq<u8> {
    data.subrange(((data.len() as int) / block_len) * block_len, data.len() as int)
}

/// Fragmentation does not matter: pushing `first` and then `second` yields the same blocks, in
/// the same order, and the same tail as pushing their concatenation.
pub proof fn lemma_fragmentation_preserves_blocks(buffered: Seq<u8>, first: Seq<u8>, second: Seq<u8>, block_len: int)
    requires
        block_len > 0,
        buffered.len() < block_len,
    ensures
        blocks_spec(buffered + first, block_len) + blocks_spec(tail_spec(buffered + first, block_len) + second, block_len)
            == blocks_spec(buffered + first + second, block_len),
        tail_spec(tail_spec(buffered + first, block_len) + second, block_len)
            == tail_spec(buffered + first + second, block_len),
{
    let d = buffered + first;
    let whole = d + second;
    let n = block_len;
    let c = (d.len() as int) / n;
    let t = tail_spec(d, n);
    let e = t + second;
    assert(c * n <= d.len() && d.len() - c * n < n) by (nonlinear_arith)
        requires c == (d.len() as int) / n, n > 0, d.len() >= 0;
    assert(e =~= whole.subrange(c * n, whole.len() as int));
    let ce = (e.len() as int) / n;
    let cw = (whole.len() as int) / n;
    assert(cw == c + ce) by (nonlinear_arith)
        requires ce == (e.len() as int) / n, cw == (whole.len() as int) / n, e.len() == whole.len() - c * n, n > 0,
            c >= 0, c * n <= whole.len();
    assert(ce * n + c * n == cw * n) by (nonlinear_arith)
        requires cw == c + ce;
    assert(0 <= ce * n <= e.len()) by (nonlinear_arith)
        requires ce == (e.len() as int) / n, n > 0;
    assert(0 <= cw * n <= whole.len()) by (nonlinear_arith)
        requires cw == (whole.len() as int) / n, n > 0;
    let left = blocks_spec(d, n) + blocks_spec(e, n);
    let right = blocks_spec(whole, n);
    assert(left.len() == right.len());
    assert forall|k: int| 0 <= k < right.len() implies left[k] == right[k] by {
        if k < c {
            assert(k * n + n <= c * n) by (nonlinear_arith)
                requires k < c, n > 0;
            assert(blocks_spec(d, n)[k] =~= right[k]);
        } else {
            let j = k - c;
            assert(k * n == c * n + j * n) by (nonlinear_arith)
                requires j == k - c;
            assert(j * n + n <= e.len()) by (nonlinear_arith)
                requires 0 <= j < ce, ce == (e.len() as int) / n, n > 0;
            assert(blocks_spec(e, n)[j] =~= right[k]);
        }
    }
    assert(left =~= right);
    assert(tail_spec(e, n).len() == tail_spec(whole, n).len());
    assert forall|i: int| 0 <= i < tail_spec(e, n).len() implies tail_spec(e, n)[i] == tail_spec(whole, n)[i] by {
        assert(tail_spec(e, n)[i] == e[ce * n + i]);
        assert(e[ce * n + i] == whole[c * n + (ce * n + i)]);
        assert(tail_spec(whole, n)[i] == whole[cw * n + i]);
    }
    assert(tail_spec(e, n) =~= tail_spec(whole, n));
}

/// A partially filled block of `BLOCK_LEN` bytes.
pub struct BlockBuffer<const BLOCK_LEN: usize> {
    bytes: [u8; BLOCK_LEN],
    buffered: usize,
}

impl<const BLOCK_LEN: usize> View for BlockBuffer<BLOCK_LEN> {
    type V = Seq<u8>;

    /// The buffered bytes of the incomplete block.
    open spec fn view(&self) -> Seq<u8> {
        self.spec_bytes()@.take(self.spec_buffered() as int)
    }
}

impl<const BLOCK_LEN: usize> BlockBuffer<BLOCK_LEN> {
    /// The storage for one block.
    pub closed spec fn spec_bytes(&self) -> [u8; BLOCK_LEN] {
        self.bytes
    }

    /// How many bytes are buffered.
    pub closed spec fn spec_buffered(&self) -> usize {
        self.buffered
    }

    /// Fewer than `BLOCK_LEN` bytes are buffered.
    pub open spec fn wf(&self) -> bool {
        BLOCK_LEN > 0 && self.spec_buffered() < BLOCK_LEN
    }

    /// An empty buffer; the block length must be nonzero.
    pub fn new() -> (buffer: Self)
        requires
            BLOCK_LEN > 0,
        ensures
            buffer.wf(),
            buffer@ == Seq::<u8>::empty(),
    {
        let buffer = Self { bytes: [0u8; BLOCK_LEN], buffered: 0 };
        assert(buffer@ =~= Seq::<u8>::empty());
        buffer
    }

    /// Add `input` and return every block it completes, in order; the incomplete tail stays
    /// buffered.
    pub fn push(&mut self, input: &[u8]) -> (blocks: Vec<[u8; BLOCK_LEN]>)
        requires
            old(self).wf(),
        ensures
            final(self).wf(),
            blocks@.len() == blocks_spec(old(self)@ + input@, BLOCK_LEN as int).len(),
            forall|k: int| 0 <= k < blocks@.len() ==> #[trigger] blocks@[k]@ == blocks_spec(old(self)@ + input@, BLOCK_LEN as int)[k],
            final(self)@ == tail_spec(old(self)@ + input@, BLOCK_LEN as int),
    {
        let ghost data = self@ + input@;
        let ghost p0 = self.buffered as int;
        let ghost count = (data.len() as int) / (BLOCK_LEN as int);
        let block_len = BLOCK_LEN;
        let input_len = input.len();
        let mut blocks: Vec<[u8; BLOCK_LEN]> = Vec::new();
        let mut offset: usize = 0;
        let mut k: usize = 0;
        if self.buffered != 0 {
            let room = block_len - self.buffered;
            let copied = if room < input.len() { room } else { input.len() };
            let mut index: usize = 0;
            while index < copied
                invariant
                    self.buffered == p0,
                    0 < p0 < block_len,
                    block_len == BLOCK_LEN,
                    p0 + copied <= block_len,
                    copied <= input@.len(),
                    index <= copied,
                    data == old(self)@ + input@,
                    old(self)@ == old(self).spec_bytes()@.take(p0),
                    forall|j: int| 0 <= j < p0 ==> self.bytes[j] == old(self).spec_bytes()[j],
                    forall|j: int| 0 <= j < index ==> self.bytes[p0 + j] == input@[j],
                decreases copied - index,
            {
                self.bytes[self.buffered + index] = input[index];
                index = index + 1;
            }
            self.buffered = self.buffered + copied;
            offset = copied;
            if self.buffered != block_len {
                assert(copied == input@.len());
                assert(count == 0) by (nonlinear_arith)
                    requires count == (data.len() as int) / (BLOCK_LEN as int), data.len() < BLOCK_LEN, BLOCK_LEN > 0;
                assert(((data.len() as int) / (BLOCK_LEN as int)) * (BLOCK_LEN as int) == 0) by (nonlinear_arith)
                    requires data.len() < BLOCK_LEN, BLOCK_LEN > 0;
                assert(tail_spec(data, BLOCK_LEN as int) =~= data);
                assert(self@.len() == data.len());
                assert forall|j: int| 0 <= j < data.len() implies self@[j] == data[j] by {
                    if j >= p0 {
                        assert(self.bytes[p0 + (j - p0)] == input@[j - p0]);
                    }
                }
                assert(self@ =~= data);
                assert(blocks_spec(data, BLOCK_LEN as int).len() == 0);
                return blocks;
            }
            assert(count >= 1) by (nonlinear_arith)
                requires count == (data.len() as int) / (BLOCK_LEN as int), data.len() >= BLOCK_LEN, BLOCK_LEN > 0;
            assert(self.bytes@ =~= blocks_spec(data, BLOCK_LEN as int)[0]);
            blocks.push(self.bytes);
            wipe_array(&mut self.bytes);
            self.buffered = 0;
            k = 1;
        }
        assert(k * block_len == p0 + offset) by (nonlinear_arith)
            requires k == 0 && p0 == 0 && offset == 0 || k == 1 && p0 + offset == block_len;
        while input.len() - offset >= block_len
            invariant
                block_len == BLOCK_LEN,
                input_len == input@.len(),
                block_len > 0,
                self.buffered == 0,
                data == old(self)@ + input@,
                data.len() == p0 + input@.len(),
                count == (data.len() as int) / (BLOCK_LEN as int),
                p0 < block_len,
                offset <= input@.len(),
                k * block_len == p0 + offset,
                blocks@.len() == k,
                forall|j: int| 0 <= j < k ==> #[trigger] blocks@[j]@ == blocks_spec(data, BLOCK_LEN as int)[j],
                k <= count,
            decreases input@.len() - offset,
        {
            assert(k < count) by (nonlinear_arith)
                requires k * block_len + block_len <= data.len(), count == (data.len() as int) / (block_len as int), block_len > 0;
            let mut block = self.bytes;
            let mut index: usize = 0;
            while index < block_len
                invariant
                    block_len == BLOCK_LEN,
                    input_len == input@.len(),
                    offset + block_len <= input_len,
                    index <= block_len,
                    forall|j: int| 0 <= j < index ==> block[j] == input@[offset + j],
                decreases block_len - index,
            {
                assert(offset + index < input@.len());
                block[index] = input[offset + index];
                index = index + 1;
            }
            assert((k + 1) * block_len == k * block_len + block_len) by (nonlinear_arith);
            assert(k + 1 <= usize::MAX) by (nonlinear_arith)
                requires (k + 1) * block_len <= p0 + input@.len(), p0 < block_len || p0 == 0, block_len >= 1,
                    input@.len() <= usize::MAX;
            assert(block@ =~= blocks_spec(data, BLOCK_LEN as int)[k as int]);
            blocks.push(block);
            offset = offset + block_len;
            k = k + 1;
        }
        assert(k == count) by (nonlinear_arith)
            requires k * block_len == p0 + offset, data.len() == p0 + input@.len(), input@.len() - offset < block_len,
                count == (data.len() as int) / (block_len as int), block_len > 0, k <= count;
        let rest = input.len() - offset;
        let mut index: usize = 0;
        while index < rest
            invariant
                block_len == BLOCK_LEN,
                input_len == input@.len(),
                offset + rest == input_len,
                rest < block_len,
                index <= rest,
                self.buffered == 0,
                forall|j: int| 0 <= j < index ==> self.bytes[j] == input@[offset + j],
            decreases rest - index,
        {
            self.bytes[index] = input[offset + index];
            index = index + 1;
        }
        self.buffered = rest;
        assert(self@ =~= tail_spec(data, BLOCK_LEN as int));
        assert(blocks_spec(data, BLOCK_LEN as int).len() == k);
        blocks
    }

    /// The buffered bytes of the incomplete block.
    pub fn remainder(&self) -> (remainder: &[u8])
        requires
            self.wf(),
        ensures
            remainder@ == self@,
    {
        vstd::slice::slice_subrange(self.bytes.as_slice(), 0, self.buffered)
    }

    /// Whether no byte is buffered.
    pub fn is_empty(&self) -> (empty: bool)
        requires
            self.wf(),
        ensures
            empty == (self@.len() == 0),
    {
        self.buffered == 0
    }

    /// Discard the buffered bytes, overwriting them.
    pub fn clear(&mut self)
        requires
            old(self).wf(),
        ensures
            final(self).wf(),
            final(self)@ == Seq::<u8>::empty(),
    {
        wipe_array(&mut self.bytes);
        self.buffered = 0;
    }
}


} // verus!
