use vstd::prelude::*;
use crate::domain_model::cell_pos::CellPos;
use crate::domain_model::turn::Turn;

verus! {

/// One placement: who moved, where, and which cells were turned over by it.
/// It is the unit of undo and redo.
#[derive(Debug)]
pub struct Move {
    pub turn: Turn,
    pub put_pos: CellPos,
    pub flipped_pos_list: Vec<CellPos>,
}

/// A `Move` as a mathematical value.
pub struct MoveView {
    pub turn: Turn,
    pub put_pos: CellPos,
    pub flipped: Seq<CellPos>,
}

impl MoveView {
    /// The stone was put on a playable cell and only playable cells were
    /// turned over.
    pub open spec fn wf(self) -> bool {
        &&& self.put_pos.playable()
        &&& forall|i: int| 0 <= i < self.flipped.len() ==> (#[trigger] self.flipped[i]).playable()
    }
}

impl View for Move {
    type V = MoveView;

    open spec fn view(&self) -> MoveView {
        MoveView { turn: self.turn, put_pos: self.put_pos, flipped: self.flipped_pos_list@ }
    }
}

/// The moves of a list as mathematical values, in the same order.
pub open spec fn move_views(moves: Seq<Move>) -> Seq<MoveView> {
    moves.map_values(|m: Move| m@)
}

impl Move {
    /// Tests at run time whether the move names playable cells only.
    pub fn is_well_formed(&self) -> (r: bool)
        ensures
            r == self@.wf(),
    {
        if !(1 <= self.put_pos.row && self.put_pos.row <= 8 && 1 <= self.put_pos.col
            && self.put_pos.col <= 8) {
            return false;
        }
        let mut i: usize = 0;
        while i < self.flipped_pos_list.len()
            invariant
                i <= self.flipped_pos_list@.len(),
                forall|j: int| 0 <= j < i ==> (#[trigger] self.flipped_pos_list@[j]).playable(),
            decreases self.flipped_pos_list@.len() - i,
        {
            let p = self.flipped_pos_list[i];
            if !(1 <= p.row && p.row <= 8 && 1 <= p.col && p.col <= 8) {
                assert(!self@.flipped[i as int].playable());
                return false;
            }
            i += 1;
        }
        true
    }
}

impl Clone for Move {
    fn clone(&self) -> (r: Move)
        ensures
            r@ == self@,
    {
        let mut flipped: Vec<CellPos> = Vec::new();
        let mut i: usize = 0;
        while i < self.flipped_pos_list.len()
            invariant
                i <= self.flipped_pos_list@.len(),
                flipped@ == self.flipped_pos_list@.take(i as int),
            decreases self.flipped_pos_list@.len() - i,
        {
            flipped.push(self.flipped_pos_list[i]);
            proof {
                assert(flipped@ =~= self.flipped_pos_list@.take(i + 1));
            }
            i += 1;
        }
        proof {
            assert(flipped@ =~= self.flipped_pos_list@);
        }
        Move { turn: self.turn, put_pos: self.put_pos, flipped_pos_list: flipped }
    }
}

} // verus!
