use vstd::prelude::*;

use crate::pos::Pos;
use crate::range::Range;

verus! {

/// Source-position metadata attached to a token.
#[derive(Debug, Default, PartialEq, Eq, Structural, Clone, Copy)]
pub struct Attr {
    pub range: Range,
}

/// The attribute spanning from `start` to `end`.
pub open spec fn span(start: Pos, end: Pos) -> Attr {
    Attr { range: Range { start, end } }
}

impl Attr {
    pub fn new() -> (r: Attr)
        ensures
            r == span(Pos { row: 0, col: 0 }, Pos { row: 0, col: 0 }),
    {
        Attr { range: Range::new() }
    }

    /// The attribute of a single character at `row`, `col`.
    pub fn point(row: u32, col: u8) -> (r: Attr)
        ensures
            r == span(Pos { row, col }, Pos { row, col }),
    {
        let mut range = Range::new();
        range.set_start(row, col);
        range.set_end(row, col);
        Attr { range }
    }

    pub fn range(start_row: u32, start_col: u8, end_row: u32, end_col: u8) -> (r: Attr)
        ensures
            r == span(Pos { row: start_row, col: start_col }, Pos { row: end_row, col: end_col }),
    {
        let mut attr = Attr::new();
        attr.set_start(start_row, start_col);
        attr.set_end(end_row, end_col);
        attr
    }

    pub fn set_start_pos(&mut self, pos: Pos)
        ensures
            *final(self) == span(pos, old(self).range.end),
    {
        self.set_start(pos.row, pos.col);
    }

    pub fn set_end_pos(&mut self, pos: Pos)
        ensures
            *final(self) == span(old(self).range.start, pos),
    {
        self.set_end(pos.row, pos.col);
    }

    fn set_start(&mut self, row: u32, col: u8)
        ensures
            *final(self) == span(Pos { row, col }, old(self).range.end),
    {
        self.range.set_start(row, col);
    }

    fn set_end(&mut self, row: u32, col: u8)
        ensures
            *final(self) == span(old(self).range.start, Pos { row, col }),
    {
        self.range.set_end(row, col);
    }
}

} // verus!
