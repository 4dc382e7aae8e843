use vstd::prelude::*;

use crate::pos::Pos;

verus! {

/// A span of source text from `start` to `end`, both inclusive positions.
/// A range whose start equals its end covers a single character.
#[derive(Debug, Default, PartialEq, Eq, Structural, Clone, Copy)]
pub struct Range {
    pub start: Pos,
    pub end: Pos,
}

impl Range {
    pub fn new() -> (r: Range)
        ensures
            r.start == (Pos { row: 0, col: 0 }),
            r.end == (Pos { row: 0, col: 0 }),
    {
        Range { start: Pos::new(0, 0), end: Pos::new(0, 0) }
    }

    pub fn set_start(&mut self, row: u32, col: u8)
        ensures
            final(self).start == (Pos { row, col }),
            final(self).end == old(self).end,
    {
        self.start = Pos::new(row, col);
    }

    pub fn set_end(&mut self, row: u32, col: u8)
        ensures
            final(self).start == old(self).start,
            final(self).end == (Pos { row, col }),
    {
        self.end = Pos::new(row, col);
    }
}

} // verus!
