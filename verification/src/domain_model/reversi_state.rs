use vstd::prelude::*;
use crate::domain_model::board::Board;
use crate::domain_model::cell::CellState;
use crate::domain_model::cell_pos::CellPos;
use crate::domain_model::grid::{Grid, flip_all, initial_grid, well_formed, with_cell};
use crate::domain_model::move_record::{Move, MoveView, move_views};
use crate::domain_model::turn::Turn;
use crate::error::{ErrorKind, ReversiError};
use crate::laws::{
    lemma_initial_consistent, lemma_redo_keeps_consistent, lemma_undo_keeps_consistent,
};

verus! {

/// A game in progress: the board, the side to move, whether the game is
/// over, and the two stacks of moves, each with its most recent move last.
pub struct ReversiState {
    pub board: Board,
    pub turn: Turn,
    pub gameover: bool,
    pub undo_buffer: Vec<Move>,
    pub redo_buffer: Vec<Move>,
}

/// A `ReversiState` as a mathematical value.
pub struct StateView {
    pub board: Grid,
    pub turn: Turn,
    pub gameover: bool,
    pub undo: Seq<MoveView>,
    pub redo: Seq<MoveView>,
}

impl StateView {
    /// The grid is well formed and every recorded move names playable cells.
    pub open spec fn wf(self) -> bool {
        &&& well_formed(self.board)
        &&& forall|i: int| 0 <= i < self.undo.len() ==> (#[trigger] self.undo[i]).wf()
        &&& forall|i: int| 0 <= i < self.redo.len() ==> (#[trigger] self.redo[i]).wf()
    }

    /// The state at the start of a game.
    pub open spec fn initial() -> StateView {
        StateView {
            board: initial_grid(),
            turn: Turn::Black,
            gameover: false,
            undo: Seq::empty(),
            redo: Seq::empty(),
        }
    }

    /// The state with one more move on the undo stack.
    pub open spec fn registered(self, m: MoveView) -> StateView {
        StateView { undo: self.undo.push(m), ..self }
    }

    /// The state after the last move of the undo stack is taken back: its
    /// captures are turned over again, its stone is lifted, the mover is to
    /// move, and the move goes onto the redo stack.
    pub open spec fn undone(self) -> StateView
        recommends
            self.undo.len() > 0,
    {
        let m = self.undo.last();
        StateView {
            board: with_cell(
                flip_all(self.board, m.flipped),
                m.put_pos.row as int,
                m.put_pos.col as int,
                CellState::BlankCell,
            ),
            turn: m.turn,
            gameover: self.gameover,
            undo: self.undo.drop_last(),
            redo: self.redo.push(m),
        }
    }

    /// What undo comes to: the state with the last move taken back, or
    /// `NoHistory` when there is no move to take back.
    pub open spec fn undo_outcome(self) -> Result<StateView, ErrorKind> {
        if self.undo.len() == 0 {
            Err(ErrorKind::NoHistory)
        } else {
            Ok(self.undone())
        }
    }

    /// What redo comes to: the state with the last undone move played again,
    /// or `NoHistory` when no undone move is left.
    pub open spec fn redo_outcome(self) -> Result<StateView, ErrorKind> {
        if self.redo.len() == 0 {
            Err(ErrorKind::NoHistory)
        } else {
            Ok(self.redone())
        }
    }

    /// The state after the last move of the redo stack is played again: its
    /// captures are turned over, its stone is put back, the mover's opponent
    /// is to move, and the move goes back onto the undo stack.
    pub open spec fn redone(self) -> StateView
        recommends
            self.redo.len() > 0,
    {
        let m = self.redo.last();
        StateView {
            board: with_cell(
                flip_all(self.board, m.flipped),
                m.put_pos.row as int,
                m.put_pos.col as int,
                m.turn.stone(),
            ),
            turn: m.turn.opposite(),
            gameover: self.gameover,
            undo: self.undo.push(m),
            redo: self.redo.drop_last(),
        }
    }
}

impl View for ReversiState {
    type V = StateView;

    open spec fn view(&self) -> StateView {
        StateView {
            board: self.board@,
            turn: self.turn,
            gameover: self.gameover,
            undo: move_views(self.undo_buffer@),
            redo: move_views(self.redo_buffer@),
        }
    }
}

impl ReversiState {
    /// The board is well formed and every recorded move names playable cells.
    /// This is what the operations need in order to run. A game that was only
    /// ever changed by them is also consistent: see `StateView::consistent`.
    pub open spec fn wf(self) -> bool {
        self.board.wf() && self@.wf()
    }

    /// A fresh game: the four stones in the middle, Black to move, no history.
    pub fn new() -> (s: ReversiState)
        ensures
            s.wf(),
            s@ == StateView::initial(),
            s@.consistent(),
    {
        let s = ReversiState {
            board: Board::new(),
            turn: Turn::Black,
            gameover: false,
            undo_buffer: Vec::new(),
            redo_buffer: Vec::new(),
        };
        proof {
            assert(s@.undo =~= Seq::empty());
            assert(s@.redo =~= Seq::empty());
            lemma_initial_consistent();
        }
        s
    }

    /// Tests at run time whether the game is well formed.
    pub fn is_well_formed(&self) -> (r: bool)
        ensures
            r == self.wf(),
    {
        if !self.board.is_well_formed() {
            return false;
        }
        let mut i: usize = 0;
        while i < self.undo_buffer.len()
            invariant
                i <= self.undo_buffer@.len(),
                forall|j: int| 0 <= j < i ==> (#[trigger] self@.undo[j]).wf(),
            decreases self.undo_buffer@.len() - i,
        {
            if !self.undo_buffer[i].is_well_formed() {
                assert(!self@.undo[i as int].wf());
                return false;
            }
            i += 1;
        }
        let mut k: usize = 0;
        while k < self.redo_buffer.len()
            invariant
                k <= self.redo_buffer@.len(),
                forall|j: int| 0 <= j < self@.undo.len() ==> (#[trigger] self@.undo[j]).wf(),
                forall|j: int| 0 <= j < k ==> (#[trigger] self@.redo[j]).wf(),
            decreases self.redo_buffer@.len() - k,
        {
            if !self.redo_buffer[k].is_well_formed() {
                assert(!self@.redo[k as int].wf());
                return false;
            }
            k += 1;
        }
        true
    }

    /// Records a move of the side to move onto the undo stack.
    pub fn register_move(&mut self, row: usize, col: usize, flipped_cells: Vec<CellPos>)
        ensures
            final(self)@ == old(self)@.registered(
                MoveView {
                    turn: old(self).turn,
                    put_pos: CellPos { row: row as i8, col: col as i8 },
                    flipped: flipped_cells@,
                },
            ),
            final(self).board == old(self).board,
    {
        let the_move = Move {
            turn: self.turn,
            put_pos: CellPos {
                row: #[verifier::truncate]
                (row as i8),
                col: #[verifier::truncate]
                (col as i8),
            },
            flipped_pos_list: flipped_cells,
        };
        self.undo_buffer.push(the_move);
        proof {
            assert(self@.undo =~= old(self)@.undo.push(the_move@));
        }
    }

    /// Takes back the most recent move, if there is one.
    pub fn undo(&mut self) -> (r: Result<(), ReversiError>)
        requires
            old(self).wf(),
        ensures
            final(self).wf(),
            match r {
                Ok(_) => old(self)@.undo_outcome() == Ok::<StateView, ErrorKind>(final(self)@),
                Err(e) => old(self)@.undo_outcome() == Err::<StateView, ErrorKind>(e.kind)
                    && e.is_of(e.kind) && final(self)@ == old(self)@,
            },
            old(self)@.consistent() ==> final(self)@.consistent(),
    {
        let last_move = match self.undo_buffer.pop() {
            Some(mv) => mv,
            None => {
                proof {
                    assert(self@.undo =~= old(self)@.undo);
                }
                return Err(ReversiError::of(ErrorKind::NoHistory));
            },
        };
        proof {
            assert(last_move@ == old(self)@.undo.last());
            assert(last_move@.wf());
            assert(self@.undo =~= old(self)@.undo.drop_last());
        }
        self.board.flip(&last_move.flipped_pos_list);
        match self.board.set_cell(
            last_move.put_pos.row as usize,
            last_move.put_pos.col as usize,
            CellState::BlankCell,
        ) {
            Ok(_) => {},
            Err(e) => {
                return Err(e);
            },
        }
        self.turn = last_move.turn;
        let ghost m = last_move@;
        self.redo_buffer.push(last_move);
        proof {
            assert(self@.redo =~= old(self)@.redo.push(m));
            if old(self)@.consistent() {
                lemma_undo_keeps_consistent(old(self)@);
            }
        }
        Ok(())
    }

    /// Plays the most recently undone move again, if there is one.
    pub fn redo(&mut self) -> (r: Result<(), ReversiError>)
        requires
            old(self).wf(),
        ensures
            final(self).wf(),
            match r {
                Ok(_) => old(self)@.redo_outcome() == Ok::<StateView, ErrorKind>(final(self)@),
                Err(e) => old(self)@.redo_outcome() == Err::<StateView, ErrorKind>(e.kind)
                    && e.is_redo_empty() && final(self)@ == old(self)@,
            },
            old(self)@.consistent() ==> final(self)@.consistent(),
    {
        let redo_move = match self.redo_buffer.pop() {
            Some(mv) => mv,
            None => {
                proof {
                    assert(self@.redo =~= old(self)@.redo);
                }
                return Err(ReversiError::redo_empty());
            },
        };
        proof {
            assert(redo_move@ == old(self)@.redo.last());
            assert(redo_move@.wf());
            assert(self@.redo =~= old(self)@.redo.drop_last());
        }
        self.board.flip(&redo_move.flipped_pos_list);
        match self.board.set_cell(
            redo_move.put_pos.row as usize,
            redo_move.put_pos.col as usize,
            redo_move.turn.get_stone(),
        ) {
            Ok(_) => {},
            Err(e) => {
                return Err(e);
            },
        }
        self.turn = redo_move.turn.get_opposite();
        let ghost m = redo_move@;
        self.undo_buffer.push(redo_move);
        proof {
            assert(self@.undo =~= old(self)@.undo.push(m));
            if old(self)@.consistent() {
                lemma_redo_keeps_consistent(old(self)@);
            }
        }
        Ok(())
    }
}

} // verus!
