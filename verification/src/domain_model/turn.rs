use vstd::prelude::*;
use crate::domain_model::cell::CellState;

verus! {

/// The side to move.
#[derive(Debug, PartialEq, Eq, Structural, Clone, Copy)]
pub enum Turn {
    Black,
    White,
}

impl Turn {
    /// The other side.
    pub open spec fn opposite(self) -> Turn {
        match self {
            Turn::Black => Turn::White,
            Turn::White => Turn::Black,
        }
    }

    /// The stone that this side places.
    pub open spec fn stone(self) -> CellState {
        match self {
            Turn::Black => CellState::BlackStone,
            Turn::White => CellState::WhiteStone,
        }
    }

    pub fn get_opposite(self) -> (t: Turn)
        ensures
            t == self.opposite(),
    {
        match self {
            Turn::Black => Turn::White,
            Turn::White => Turn::Black,
        }
    }

    pub fn get_stone(self) -> (s: CellState)
        ensures
            s == self.stone(),
    {
        match self {
            Turn::Black => CellState::BlackStone,
            Turn::White => CellState::WhiteStone,
        }
    }
}

} // verus!
