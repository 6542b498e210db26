//! Mapping between an AES block and the four-by-four state (FIPS 197 §3.4).
//!
//! Input byte `in[r + 4c]` becomes state byte `s[r, c]` (equation 3.6) and the output block is
//! read back the same way (equation 3.7). The storage is `rows[r][c]`, so a transformation reads
//! like the standard, while the model of a state is the sixteen-byte block it encodes.

use vstd::prelude::*;

verus! {

/// Number of rows in the AES state.
pub const STATE_ROWS: usize = 4;

/// Number of columns in the AES state (`Nb`).
pub const STATE_COLUMNS: usize = 4;

/// Size of every AES block in bytes.
pub const BLOCK_LEN: usize = 16;

/// AES's internal four-by-four byte state, `rows[r][c]` holding `s[r, c]`.
pub struct State {
    rows: [[u8; STATE_COLUMNS]; STATE_ROWS],
}

impl State {
    /// State byte `s[row, column]`.
    pub closed spec fn cell(&self, row: int, column: int) -> u8 {
        self.rows[row][column]
    }
}

impl View for State {
    type V = Seq<u8>;

    /// The block this state encodes: byte `r + 4c` is `s[r, c]`.
    open spec fn view(&self) -> Seq<u8> {
        Seq::new(16, |i: int| self.cell(i % 4, i / 4))
    }
}

impl State {
    /// Copy one complete block into the state using FIPS 197 equation 3.6.
    pub fn from_block(input: &[u8; BLOCK_LEN]) -> (state: Self)
        ensures
            state@ == input@,
    {
        let mut rows = [[0u8; STATE_COLUMNS]; STATE_ROWS];
        let mut column: usize = 0;
        while column < STATE_COLUMNS
            invariant
                column <= 4,
                forall|r: int, c: int| 0 <= r < 4 && 0 <= c < column ==> rows[r][c] == input[r + 4 * c],
            decreases 4 - column,
        {
            let mut row: usize = 0;
            while row < STATE_ROWS
                invariant
                    column < 4,
                    row <= 4,
                    forall|r: int, c: int| 0 <= r < 4 && 0 <= c < column ==> rows[r][c] == input[r + 4 * c],
                    forall|r: int| 0 <= r < row ==> rows[r][column as int] == input[r + 4 * column],
                decreases 4 - row,
            {
                rows[row][column] = input[row + STATE_ROWS * column];
                row = row + 1;
            }
            column = column + 1;
        }
        let state = Self { rows };
        assert(state@ =~= input@);
        state
    }

    /// Copy the state to one complete output block using FIPS 197 equation 3.7.
    pub fn write_block(&self, output: &mut [u8; BLOCK_LEN])
        ensures
            final(output)@ == self@,
    {
        let mut column: usize = 0;
        while column < STATE_COLUMNS
            invariant
                column <= 4,
                forall|r: int, c: int| 0 <= r < 4 && 0 <= c < column ==> output[r + 4 * c] == self.rows[r][c],
            decreases 4 - column,
        {
            let mut row: usize = 0;
            while row < STATE_ROWS
                invariant
                    column < 4,
                    row <= 4,
                    forall|r: int, c: int| 0 <= r < 4 && 0 <= c < column ==> output[r + 4 * c] == self.rows[r][c],
                    forall|r: int| 0 <= r < row ==> output[r + 4 * column] == self.rows[r][column as int],
                decreases 4 - row,
            {
                output[row + STATE_ROWS * column] = self.rows[row][column];
                row = row + 1;
            }
            column = column + 1;
        }
        assert forall|i: int| 0 <= i < 16 implies output@[i] == self@[i] by {
            assert(i == i % 4 + 4 * (i / 4));
        }
        assert(output@ =~= self@);
    }

    /// Read state byte `s[row, column]`.
    pub fn byte(&self, row: usize, column: usize) -> (b: u8)
        requires
            row < 4,
            column < 4,
        ensures
            b == self@[row + 4 * column],
    {
        self.rows[row][column]
    }

    /// Replace state byte `s[row, column]`.
    pub fn set_byte(&mut self, row: usize, column: usize, value: u8)
        requires
            row < 4,
            column < 4,
        ensures
            final(self)@ == old(self)@.update(row + 4 * column, value),
    {
        self.rows[row][column] = value;
        assert(self@ =~= old(self)@.update(row + 4 * column, value));
    }

    /// The four rows of the state, `rows[r][c] = s[r, c]`.
    pub fn rows(&self) -> (rows: [[u8; STATE_COLUMNS]; STATE_ROWS])
        ensures
            forall|r: int, c: int| 0 <= r < 4 && 0 <= c < 4 ==> rows[r][c] == self@[r + 4 * c],
    {
        self.rows
    }
}

} // verus!
