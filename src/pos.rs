use vstd::prelude::*;

verus! {

/// A row-column position in source text. Rows start at 1; columns count the
/// characters consumed on the current row.
#[derive(Debug, Default, PartialEq, Eq, Structural, Clone, Copy)]
pub struct Pos {
    pub row: u32,
    pub col: u8,
}

impl Pos {
    pub fn new(row: u32, col: u8) -> (r: Pos)
        ensures
            r.row == row,
            r.col == col,
    {
        Pos { row, col }
    }
}

} // verus!
