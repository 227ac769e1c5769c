use vstd::prelude::*;

verus! {

/// A row and a column of the grid, or a step between two cells.
#[derive(Debug, PartialEq, Eq, Structural, Clone, Copy)]
pub struct CellPos {
    pub row: i8,
    pub col: i8,
}

impl CellPos {
    /// Both coordinates are in 1..=8: a cell of the playable area.
    pub open spec fn playable(self) -> bool {
        1 <= self.row <= 8 && 1 <= self.col <= 8
    }

    /// Both coordinates are in 0..=9: a cell of the grid, ring included.
    pub open spec fn on_grid(self) -> bool {
        0 <= self.row <= 9 && 0 <= self.col <= 9
    }
}

} // verus!
