use vstd::prelude::*;

use crate::pos::Pos;

verus! {

/// Tracks the position reached while consuming source text.
///
/// `index` is the index of the last consumed character, so it starts at -1
/// before anything is consumed. The column is an unsigned byte and counts
/// modulo 256 on very long rows.
pub struct Cursor {
    pub index: i32,
    pub row: u32,
    pub col: u8,
}

impl Cursor {
    /// The position the cursor stands at.
    pub open spec fn pos(&self) -> Pos {
        Pos { row: self.row, col: self.col }
    }

    pub fn new() -> (r: Cursor)
        ensures
            r.index == -1,
            r.pos() == (Pos { row: 1, col: 0 }),
    {
        Cursor { index: -1, row: 1, col: 0 }
    }

    /// Consumes one character of the current row.
    pub fn incr_col(&mut self)
        requires
            old(self).index < i32::MAX,
        ensures
            final(self).index == old(self).index + 1,
            final(self).pos() == (Pos {
                row: old(self).pos().row,
                col: ((old(self).pos().col + 1) % 256) as u8,
            }),
    {
        self.index = self.index + 1;
        self.col = self.col.wrapping_add(1);
    }

    /// Consumes a line break: moves to the start of the next row.
    pub fn incr_row(&mut self)
        requires
            old(self).index < i32::MAX,
            old(self).pos().row < u32::MAX,
        ensures
            final(self).index == old(self).index + 1,
            final(self).pos() == (Pos { row: (old(self).pos().row + 1) as u32, col: 0 }),
    {
        self.index = self.index + 1;
        self.row = self.row + 1;
        self.col = 0;
    }

    pub fn cur_pos(&self) -> (r: Pos)
        ensures
            r == self.pos(),
    {
        Pos::new(self.row, self.col)
    }
}

} // verus!
