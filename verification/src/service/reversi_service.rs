use vstd::prelude::*;
use vstd::string::StringExecFns;
use crate::data::fileio::{
    history_lines, history_text, move_line_pattern, parse_history, parsed_history,
};
use crate::data::pattern::pattern_accepted;
use crate::domain_model::cell::CellState;
use crate::domain_model::cell_pos::CellPos;
use crate::domain_model::grid::{
    Grid, capturable, count, flip_all, has_blank, in_playable_range, with_cell,
};
use crate::domain_model::move_record::{Move, MoveView, move_views};
use crate::domain_model::reversi_state::{ReversiState, StateView};
use crate::error::{ErrorKind, ReversiError};
use crate::laws::{
    lemma_put_keeps_consistent, lemma_restored_is_consistent, lemma_turn_keeps_consistent,
};

verus! {

/// The state after the side to move has put a stone at (`row`, `col`) and
/// captured `captured`: the stone is placed, the captures are turned over, the
/// move is recorded, nothing is left to redo, and the turn passes on unless
/// the board is now full, which ends the game.
pub open spec fn placed(s: StateView, row: int, col: int, captured: Seq<CellPos>) -> StateView {
    let board = flip_all(with_cell(s.board, row, col, s.turn.stone()), captured);
    let full = !has_blank(board);
    StateView {
        board,
        turn: if full {
            s.turn
        } else {
            s.turn.opposite()
        },
        gameover: full || s.gameover,
        undo: s.undo.push(
            MoveView {
                turn: s.turn,
                put_pos: CellPos { row: row as i8, col: col as i8 },
                flipped: captured,
            },
        ),
        redo: Seq::empty(),
    }
}

/// What putting a stone at (`row`, `col`) comes to: the new state, or the
/// reason why the placement is refused. The tests are made in this order:
/// the position, the cell, the captures.
pub open spec fn put_stone_outcome(s: StateView, row: int, col: int) -> Result<
    StateView,
    ErrorKind,
> {
    if !in_playable_range(row, col) {
        Err(ErrorKind::OutOfRange)
    } else if s.board[row][col] != CellState::BlankCell {
        Err(ErrorKind::CellOccupied)
    } else if capturable(s.board, row, col, s.turn.stone()).len() == 0 {
        Err(ErrorKind::NoCapture)
    } else {
        Ok(placed(s, row, col, capturable(s.board, row, col, s.turn.stone())))
    }
}

/// What playing a stored move comes to: the side that made it is put to
/// move, and the stone is put as any other.
pub open spec fn move_outcome(s: StateView, m: MoveView) -> Result<StateView, ErrorKind> {
    put_stone_outcome(
        StateView { turn: m.turn, ..s },
        m.put_pos.row as int,
        m.put_pos.col as int,
    )
}

/// What playing a list of stored moves, first to last, comes to: the state
/// after the last of them, or the reason why the first one that cannot be
/// played is refused.
pub open spec fn replay_outcome(s: StateView, moves: Seq<MoveView>) -> Result<StateView, ErrorKind>
    decreases moves.len(),
{
    if moves.len() == 0 {
        Ok(s)
    } else {
        match replay_outcome(s, moves.drop_last()) {
            Ok(t) => move_outcome(t, moves.last()),
            Err(kind) => Err(kind),
        }
    }
}

/// The state after `n` moves are taken back.
pub open spec fn undone_times(s: StateView, n: nat) -> StateView
    decreases n,
{
    if n == 0 {
        s
    } else {
        undone_times(s, (n - 1) as nat).undone()
    }
}

/// The game that two stored lists of moves stand for: every move is played
/// from the start of a game, those of the undo list first, and then as many
/// moves are taken back as the redo list holds.
pub open spec fn restore_outcome(undo_list: Seq<MoveView>, redo_list: Seq<MoveView>) -> Result<
    StateView,
    ErrorKind,
> {
    match replay_outcome(StateView::initial(), undo_list + redo_list) {
        Ok(t) => Ok(undone_times(t, redo_list.len())),
        Err(kind) => Err(kind),
    }
}

/// What loading a stored game comes to, where its lines can be read.
pub open spec fn load_outcome(lines: Seq<Seq<char>>) -> Result<StateView, ErrorKind> {
    match parsed_history(lines) {
        Some(lists) => restore_outcome(lists.0, lists.1),
        None => Err(ErrorKind::PersistedDataCorrupt),
    }
}

/// The announcement of the winner: Black with more than 32 stones, else White.
pub open spec fn result_text(board: Grid) -> Seq<char> {
    (if count(board, CellState::BlackStone) > 32 {
        "黒"@
    } else {
        "白"@
    }) + "の勝ち"@
}

/// Puts a stone of the side to move at (`row`, `col`). A refused placement
/// leaves the state as it was.
pub fn put_stone(state: &mut ReversiState, row: usize, col: usize) -> (r: Result<(), ReversiError>)
    requires
        old(state).wf(),
    ensures
        final(state).wf(),
        match r {
            Ok(_) => put_stone_outcome(old(state)@, row as int, col as int) == Ok::<
                StateView,
                ErrorKind,
            >(final(state)@),
            Err(e) => put_stone_outcome(old(state)@, row as int, col as int) == Err::<
                StateView,
                ErrorKind,
            >(e.kind) && e.is_of(e.kind) && final(state)@ == old(state)@,
        },
        old(state)@.consistent() ==> final(state)@.consistent(),
{
    let stone = state.turn.get_stone();

    if !state.board.is_in_range(row, col) {
        return Err(ReversiError::of(ErrorKind::OutOfRange));
    }
    match state.board.get_cell(row, col) {
        Some(cell) => match cell {
            CellState::BlankCell => {},
            _ => {
                return Err(ReversiError::of(ErrorKind::CellOccupied));
            },
        },
        None => {
            return Err(ReversiError::of(ErrorKind::OutOfRange));
        },
    }

    let flip_cells = match state.board.find_flippable_cells(row, col, stone) {
        Ok(cells) => cells,
        Err(e) => {
            return Err(e);
        },
    };
    if flip_cells.is_empty() {
        return Err(ReversiError::of(ErrorKind::NoCapture));
    }
    match state.board.set_cell(row, col, stone) {
        Ok(_) => {},
        Err(e) => {
            return Err(e);
        },
    }
    state.board.flip(&flip_cells);
    state.register_move(row, col, flip_cells);
    state.redo_buffer.clear();

    if state.board.has_blank_cell() {
        switch_turn(state);
    } else {
        state.gameover = true;
    }
    proof {
        let done = placed(old(state)@, row as int, col as int, flip_cells@);
        assert(state@.redo =~= done.redo);
        assert(state@.undo =~= done.undo);
        if old(state)@.consistent() {
            lemma_put_keeps_consistent(old(state)@, row as int, col as int);
        }
    }
    Ok(())
}

/// Names the winner by Black's count alone: Black with more than 32 stones,
/// otherwise White, a 32-32 board included.
pub fn get_result_string(state: &ReversiState) -> (s: String)
    ensures
        s@ == result_text(state@.board),
{
    let mut s = String::from_str(
        if state.board.count_black_stones() > 32 {
            "黒"
        } else {
            "白"
        },
    );
    s.append("の勝ち");
    s
}

/// Hands the turn to the other side.
pub fn switch_turn(state: &mut ReversiState)
    ensures
        final(state)@ == (StateView { turn: old(state)@.turn.opposite(), ..old(state)@ }),
        final(state).board == old(state).board,
        old(state)@.consistent() ==> final(state)@.consistent(),
{
    state.turn = state.turn.get_opposite();
    proof {
        if old(state)@.consistent() {
            lemma_turn_keeps_consistent(old(state)@, old(state)@.turn.opposite());
        }
    }
}

/// The side to move gives up its turn. Whether it had a legal move is not
/// looked at.
pub fn pass(state: &mut ReversiState)
    ensures
        final(state)@ == (StateView { turn: old(state)@.turn.opposite(), ..old(state)@ }),
        final(state).board == old(state).board,
        old(state)@.consistent() ==> final(state)@.consistent(),
{
    switch_turn(state);
}

/// True once a move has filled the board.
pub fn is_game_over(state: &ReversiState) -> (r: bool)
    ensures
        r == state@.gameover,
{
    state.gameover
}

/// The number of moves that can be taken back.
pub fn get_history_size(state: &ReversiState) -> (n: usize)
    ensures
        n == state@.undo.len(),
{
    state.undo_buffer.len()
}

/// Takes back the most recent move, if there is one.
pub fn undo(state: &mut ReversiState) -> (r: Result<(), ReversiError>)
    requires
        old(state).wf(),
    ensures
        final(state).wf(),
        match r {
            Ok(_) => old(state)@.undo_outcome() == Ok::<StateView, ErrorKind>(final(state)@),
            Err(e) => old(state)@.undo_outcome() == Err::<StateView, ErrorKind>(e.kind)
                && e.is_of(e.kind) && final(state)@ == old(state)@,
        },
        old(state)@.consistent() ==> final(state)@.consistent(),
{
    state.undo()
}

/// Plays the most recently undone move again, if there is one.
pub fn redo(state: &mut ReversiState) -> (r: Result<(), ReversiError>)
    requires
        old(state).wf(),
    ensures
        final(state).wf(),
        match r {
            Ok(_) => old(state)@.redo_outcome() == Ok::<StateView, ErrorKind>(final(state)@),
            Err(e) => old(state)@.redo_outcome() == Err::<StateView, ErrorKind>(e.kind)
                && e.is_redo_empty() && final(state)@ == old(state)@,
        },
        old(state)@.consistent() ==> final(state)@.consistent(),
{
    state.redo()
}

/// The lines that store the game: the number of moves that can be taken
/// back, then every move in the order in which it was played.
pub fn save(state: &ReversiState) -> (lines: Vec<String>)
    requires
        state.wf(),
    ensures
        lines.deep_view() == history_text(state@),
{
    history_lines(state)
}

/// Plays one stored move: puts its side to move and puts its stone.
pub fn do_one_move(state: &mut ReversiState, mv: &Move) -> (r: Result<(), ReversiError>)
    requires
        old(state).wf(),
    ensures
        final(state).wf(),
        match r {
            Ok(_) => move_outcome(old(state)@, mv@) == Ok::<StateView, ErrorKind>(final(state)@),
            Err(e) => move_outcome(old(state)@, mv@) == Err::<StateView, ErrorKind>(e.kind)
                && e.is_of(e.kind) && final(state)@ == (StateView {
                turn: mv.turn,
                ..old(state)@
            }),
        },
        old(state)@.consistent() ==> final(state)@.consistent(),
{
    state.turn = mv.turn;
    proof {
        if old(state)@.consistent() {
            lemma_turn_keeps_consistent(old(state)@, mv.turn);
        }
    }
    if mv.put_pos.row < 0 || mv.put_pos.col < 0 {
        return Err(ReversiError::of(ErrorKind::OutOfRange));
    }
    put_stone(state, mv.put_pos.row as usize, mv.put_pos.col as usize)
}

/// Plays the moves of a list, first to last, and stops at the first one that
/// cannot be played.
pub fn replay(state: &mut ReversiState, moves: &Vec<Move>) -> (r: Result<(), ReversiError>)
    requires
        old(state).wf(),
    ensures
        final(state).wf(),
        match r {
            Ok(_) => replay_outcome(old(state)@, move_views(moves@)) == Ok::<StateView, ErrorKind>(
                final(state)@,
            ),
            Err(e) => replay_outcome(old(state)@, move_views(moves@)) == Err::<
                StateView,
                ErrorKind,
            >(e.kind) && e.is_of(e.kind),
        },
        old(state)@.consistent() ==> final(state)@.consistent(),
{
    let ghost all = move_views(moves@);
    let mut i: usize = 0;
    while i < moves.len()
        invariant
            i <= moves@.len(),
            state.wf(),
            all == move_views(moves@),
            replay_outcome(old(state)@, all.take(i as int)) == Ok::<StateView, ErrorKind>(state@),
            old(state)@.consistent() ==> state@.consistent(),
        decreases moves@.len() - i,
    {
        proof {
            assert(all.take(i + 1).drop_last() =~= all.take(i as int));
            assert(all.take(i + 1).last() == moves@[i as int]@);
        }
        match do_one_move(state, &moves[i]) {
            Ok(_) => {},
            Err(e) => {
                proof {
                    lemma_replay_stops(old(state)@, all, i + 1);
                }
                return Err(e);
            },
        }
        i += 1;
    }
    proof {
        assert(all.take(moves@.len() as int) =~= all);
    }
    Ok(())
}

/// Once a start of the list cannot be played, the list cannot be played, and
/// for the same reason.
pub proof fn lemma_replay_stops(s: StateView, moves: Seq<MoveView>, k: int)
    requires
        0 <= k <= moves.len(),
        replay_outcome(s, moves.take(k)) is Err,
    ensures
        replay_outcome(s, moves) == replay_outcome(s, moves.take(k)),
    decreases moves.len(),
{
    if k < moves.len() {
        assert(moves.drop_last().take(k) =~= moves.take(k));
        lemma_replay_stops(s, moves.drop_last(), k);
    } else {
        assert(moves.take(k) =~= moves);
    }
}

/// Every stored move that is played adds one move to the undo stack.
pub proof fn lemma_replay_grows(s: StateView, moves: Seq<MoveView>)
    requires
        replay_outcome(s, moves) is Ok,
    ensures
        replay_outcome(s, moves)->Ok_0.undo.len() == s.undo.len() + moves.len(),
    decreases moves.len(),
{
    if moves.len() > 0 {
        lemma_replay_grows(s, moves.drop_last());
    }
}

/// Rebuilds a game from its two stored lists of moves.
pub fn restore_state(undo_list: Vec<Move>, redo_list: Vec<Move>) -> (r: Result<
    ReversiState,
    ReversiError,
>)
    ensures
        match r {
            Ok(state) => state.wf() && state@.consistent() && restore_outcome(
                move_views(undo_list@),
                move_views(redo_list@),
            ) == Ok::<StateView, ErrorKind>(state@),
            Err(e) => restore_outcome(move_views(undo_list@), move_views(redo_list@)) == Err::<
                StateView,
                ErrorKind,
            >(e.kind) && e.is_of(e.kind),
        },
{
    let mut state = ReversiState::new();
    let ghost first = move_views(undo_list@);
    let ghost second = move_views(redo_list@);
    match replay(&mut state, &undo_list) {
        Ok(_) => {},
        Err(e) => {
            proof {
                assert((first + second).take(first.len() as int) =~= first);
                lemma_replay_stops(StateView::initial(), first + second, first.len() as int);
            }
            return Err(e);
        },
    }
    let ghost middle = state@;
    proof {
        lemma_replay_joined(StateView::initial(), first, second);
    }
    match replay(&mut state, &redo_list) {
        Ok(_) => {},
        Err(e) => {
            return Err(e);
        },
    }
    proof {
        lemma_replay_grows(middle, second);
    }
    let ghost replayed = state@;
    let mut i: usize = 0;
    while i < redo_list.len()
        invariant
            i <= redo_list@.len(),
            state.wf(),
            replayed.undo.len() >= redo_list@.len(),
            state@ == undone_times(replayed, i as nat),
            state@.undo.len() == replayed.undo.len() - i,
        decreases redo_list@.len() - i,
    {
        match state.undo() {
            Ok(_) => {},
            Err(e) => {
                return Err(e);
            },
        }
        i += 1;
    }
    proof {
        lemma_restored_is_consistent(first, second);
    }
    Ok(state)
}

/// Playing two lists one after the other is playing the two joined.
pub proof fn lemma_replay_joined(s: StateView, first: Seq<MoveView>, second: Seq<MoveView>)
    requires
        replay_outcome(s, first) is Ok,
    ensures
        replay_outcome(s, first + second) == replay_outcome(
            replay_outcome(s, first)->Ok_0,
            second,
        ),
    decreases second.len(),
{
    if second.len() == 0 {
        assert(first + second =~= first);
    } else {
        lemma_replay_joined(s, first, second.drop_last());
        assert((first + second).drop_last() =~= first + second.drop_last());
        assert((first + second).last() == second.last());
    }
}

/// Rebuilds a game from the lines that store it.
pub fn load(lines: &Vec<String>) -> (r: Result<ReversiState, ReversiError>)
    ensures
        match r {
            Ok(state) => state.wf() && state@.consistent() && load_outcome(lines.deep_view())
                == Ok::<StateView, ErrorKind>(state@),
            Err(e) => e.is_of(e.kind) && (e.kind == ErrorKind::PersistedDataCorrupt
                || load_outcome(lines.deep_view()) == Err::<StateView, ErrorKind>(e.kind)),
        },
        lines@.len() <= 1 || pattern_accepted(move_line_pattern()) ==> match r {
            Ok(state) => load_outcome(lines.deep_view()) == Ok::<StateView, ErrorKind>(state@),
            Err(e) => load_outcome(lines.deep_view()) == Err::<StateView, ErrorKind>(e.kind),
        },
{
    let (undo_list, redo_list) = match parse_history(lines) {
        Ok(lists) => lists,
        Err(e) => {
            return Err(e);
        },
    };
    restore_state(undo_list, redo_list)
}

} // verus!
