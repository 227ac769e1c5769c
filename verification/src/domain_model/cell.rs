use vstd::prelude::*;

verus! {

/// What a cell of the grid holds.
#[derive(Debug, PartialEq, Eq, Structural, Clone, Copy)]
pub enum CellState {
    /// A cell of the ring around the playable area.
    OuterCell,
    /// A playable cell with no stone on it.
    BlankCell,
    BlackStone,
    WhiteStone,
}

impl CellState {
    /// True for the two colours, false for a blank or an outer cell.
    pub open spec fn is_stone(self) -> bool {
        self == CellState::BlackStone || self == CellState::WhiteStone
    }

    /// The other colour; a blank or an outer cell is its own reverse.
    pub open spec fn reversed(self) -> CellState {
        match self {
            CellState::OuterCell => CellState::OuterCell,
            CellState::BlankCell => CellState::BlankCell,
            CellState::BlackStone => CellState::WhiteStone,
            CellState::WhiteStone => CellState::BlackStone,
        }
    }
}

pub trait ICellState {
    /// What `get_reverse_stone` returns.
    spec fn reverse_stone(&self) -> CellState;

    fn get_reverse_stone(&self) -> (r: CellState)
        ensures
            r == self.reverse_stone(),
    ;
}

impl ICellState for CellState {
    open spec fn reverse_stone(&self) -> CellState {
        self.reversed()
    }

    fn get_reverse_stone(&self) -> (r: CellState) {
        match self {
            CellState::OuterCell => CellState::OuterCell,
            CellState::BlankCell => CellState::BlankCell,
            CellState::BlackStone => CellState::WhiteStone,
            CellState::WhiteStone => CellState::BlackStone,
        }
    }
}

} // verus!
