use vstd::prelude::*;
use crate::domain_model::cell::CellState;
use crate::domain_model::cell_pos::CellPos;
use crate::domain_model::grid::{
    Grid, brackets, capturable, capturable_upto, count, directions, flip_all, in_playable_range,
    in_scan_range, initial_grid, lemma_count_in_partition, lemma_flip_all_cell,
    lemma_flip_all_twice, lemma_flip_all_well_formed, lemma_flips_of_twice, ray_cell,
    run_in_direction, well_formed, with_cell,
};
use crate::domain_model::history::{
    applied, board_after, legal, lemma_applied, lemma_applied_then_lifted,
    lemma_board_after_well_formed, lemma_playable_from_first, lemma_playable_from_joined,
    lemma_replayed_is_applied, playable_from,
};
use crate::domain_model::move_record::MoveView;
use crate::domain_model::reversi_state::StateView;
use crate::domain_model::turn::Turn;
use crate::error::ErrorKind;
use crate::service::reversi_service::{
    lemma_replay_grows, placed, put_stone_outcome, replay_outcome, restore_outcome, undone_times,
};

verus! {

/// On a well-formed board every playable cell is black, white or blank, so
/// the three counts add up to 64. Every operation of the engine keeps the
/// board well formed, so this holds after each of them.
pub proof fn lemma_counts_add_up(g: Grid)
    requires
        well_formed(g),
    ensures
        count(g, CellState::BlackStone) + count(g, CellState::WhiteStone) + count(
            g,
            CellState::BlankCell,
        ) == 64,
{
    lemma_count_in_partition(g, 64);
}

/// A placement from which no direction holds a run of one or more stones of
/// the other colour closed by a stone of the mover is refused: with
/// `NoCapture` where the cell is playable and blank, and before the captures
/// are looked at where it is not.
pub proof fn lemma_no_bracketed_run_no_capture(s: StateView, row: int, col: int)
    requires
        forall|d: int, n: int|
            0 <= d < 8 && n >= 1 ==> !#[trigger] brackets(
                s.board,
                row,
                col,
                directions()[d],
                s.turn.stone(),
                n,
            ),
    ensures
        put_stone_outcome(s, row, col) is Err,
        in_playable_range(row, col) && s.board[row][col] == CellState::BlankCell
            ==> put_stone_outcome(s, row, col) == Err::<StateView, ErrorKind>(
            ErrorKind::NoCapture,
        ),
{
    let stone = s.turn.stone();
    assert forall|d: int| 0 <= d < 8 implies #[trigger] run_in_direction(
        s.board,
        row,
        col,
        directions()[d],
        stone,
    ).len() == 0 by {
        let dir = directions()[d];
        if exists|n: int| brackets(s.board, row, col, dir, stone, n) {
            let n = choose|n: int| brackets(s.board, row, col, dir, stone, n);
            assert(!brackets(s.board, row, col, directions()[d], stone, n) || n < 1);
        }
    }
    lemma_capturable_upto_empty(s.board, row, col, stone, 8);
}

/// Where none of the first `d` directions captures, nothing is captured along
/// them.
proof fn lemma_capturable_upto_empty(g: Grid, row: int, col: int, stone: CellState, d: nat)
    requires
        d <= 8,
        forall|e: int|
            0 <= e < 8 ==> #[trigger] run_in_direction(g, row, col, directions()[e], stone).len()
                == 0,
    ensures
        capturable_upto(g, row, col, stone, d).len() == 0,
    decreases d,
{
    if d > 0 {
        lemma_capturable_upto_empty(g, row, col, stone, (d - 1) as nat);
        assert(run_in_direction(g, row, col, directions()[d - 1], stone).len() == 0);
    }
}

/// A move that is applied and at once taken back leaves the board, the side
/// to move, the history and every count as they were.
pub proof fn lemma_put_then_undo(s: StateView, row: int, col: int)
    requires
        s.wf(),
        put_stone_outcome(s, row, col) is Ok,
    ensures
        put_stone_outcome(s, row, col)->Ok_0.undo_outcome() is Ok,
        ({
            let back = put_stone_outcome(s, row, col)->Ok_0.undone();
            &&& back.board == s.board
            &&& back.turn == s.turn
            &&& back.undo == s.undo
            &&& forall|stone: CellState| count(back.board, stone) == count(s.board, stone)
        }),
{
    let caps = capturable(s.board, row, col, s.turn.stone());
    let t = placed(s, row, col, caps);
    let with_stone = with_cell(s.board, row, col, s.turn.stone());
    assert(well_formed(with_stone));
    lemma_flip_all_twice(with_stone, caps);
    let back = t.undone();
    assert(t.undo.last().flipped == caps);
    assert(back.board =~~= s.board);
    assert(back.undo =~= s.undo);
}

/// After a move nothing is left to redo: redo is refused with `NoHistory`,
/// and a pass does not change that. Once the move is taken back, redo is
/// possible again.
pub proof fn lemma_move_clears_redo(s: StateView, row: int, col: int)
    requires
        put_stone_outcome(s, row, col) is Ok,
    ensures
        ({
            let t = put_stone_outcome(s, row, col)->Ok_0;
            let passed = StateView { turn: t.turn.opposite(), ..t };
            &&& t.redo.len() == 0
            &&& t.redo_outcome() == Err::<StateView, ErrorKind>(ErrorKind::NoHistory)
            &&& passed.redo_outcome() == Err::<StateView, ErrorKind>(ErrorKind::NoHistory)
            &&& t.undo_outcome() is Ok
            &&& t.undone().redo_outcome() is Ok
        }),
{
}

/// Undo followed by redo gives back the board and both stacks, provided
/// that the stone of the move taken back stood where the move had put it.
/// The side to move afterwards is the opponent of the mover: the side of
/// before the undo exactly when the turn had passed on after that move.
pub proof fn lemma_undo_then_redo(s: StateView)
    requires
        s.wf(),
        s.undo.len() > 0,
        s.board[s.undo.last().put_pos.row as int][s.undo.last().put_pos.col as int]
            == s.undo.last().turn.stone(),
    ensures
        s.undo_outcome() is Ok,
        s.undone().redo_outcome() is Ok,
        ({
            let again = s.undone().redone();
            &&& again.board == s.board
            &&& again.undo == s.undo
            &&& again.redo == s.redo
            &&& again.gameover == s.gameover
            &&& again.turn == s.undo.last().turn.opposite()
            &&& (again.turn == s.turn <==> s.turn == s.undo.last().turn.opposite())
        }),
{
    let m = s.undo.last();
    let p = m.put_pos;
    let u = s.undone();
    let again = u.redone();
    assert(m.wf());
    assert(u.redo.last() == m);
    let lifted = flip_all(s.board, m.flipped);
    lemma_flip_all_well_formed(s.board, m.flipped);
    let blanked = with_cell(lifted, p.row as int, p.col as int, CellState::BlankCell);
    assert(well_formed(blanked));
    let turned = flip_all(blanked, m.flipped);
    lemma_flip_all_well_formed(blanked, m.flipped);
    assert forall|r: int, c: int| in_scan_range(r, c) implies #[trigger] again.board[r][c]
        == s.board[r][c] by {
        if !(r == p.row && c == p.col) {
            lemma_flip_all_cell(s.board, m.flipped, r, c);
            lemma_flip_all_cell(blanked, m.flipped, r, c);
            lemma_flips_of_twice(s.board[r][c], m.flipped, r, c);
        }
    }
    assert(again.board =~~= s.board);
    assert(again.undo =~= s.undo);
    assert(again.redo =~= s.redo);
}

/// Where some direction holds a run of one or more stones of the other
/// colour closed by a stone of the mover, a placement on a blank playable
/// cell is accepted.
pub proof fn lemma_bracketed_run_captures(s: StateView, row: int, col: int, d: int, n: int)
    requires
        in_playable_range(row, col),
        s.board[row][col] == CellState::BlankCell,
        0 <= d < 8,
        n >= 1,
        brackets(s.board, row, col, directions()[d], s.turn.stone(), n),
    ensures
        put_stone_outcome(s, row, col) is Ok,
{
    let stone = s.turn.stone();
    let dir = directions()[d];
    let m = choose|m: int| brackets(s.board, row, col, dir, stone, m);
    assert(brackets(s.board, row, col, dir, stone, m));
    if m < n {
        assert(ray_cell(s.board, row, col, dir, m + 1) == stone.reversed());
    } else if m > n {
        assert(ray_cell(s.board, row, col, dir, n + 1) == stone.reversed());
    }
    assert(run_in_direction(s.board, row, col, dir, stone).len() == n);
    lemma_capturable_upto_holds(s.board, row, col, stone, 8, d);
}

/// What is captured along one of the first `upto` directions is part of what
/// is captured along all of them.
proof fn lemma_capturable_upto_holds(
    g: Grid,
    row: int,
    col: int,
    stone: CellState,
    upto: nat,
    d: int,
)
    requires
        0 <= d < upto <= 8,
    ensures
        capturable_upto(g, row, col, stone, upto).len() >= run_in_direction(
            g,
            row,
            col,
            directions()[d],
            stone,
        ).len(),
    decreases upto,
{
    if d < upto - 1 {
        lemma_capturable_upto_holds(g, row, col, stone, (upto - 1) as nat, d);
    }
}

/// A new game is consistent.
pub proof fn lemma_initial_consistent()
    ensures
        StateView::initial().consistent(),
{
    let s = StateView::initial();
    assert(s.redo.reverse() =~= Seq::<MoveView>::empty());
}

/// A move that is accepted keeps a consistent game consistent.
pub proof fn lemma_put_keeps_consistent(s: StateView, row: int, col: int)
    requires
        s.consistent(),
        put_stone_outcome(s, row, col) is Ok,
    ensures
        put_stone_outcome(s, row, col)->Ok_0.consistent(),
{
    let caps = capturable(s.board, row, col, s.turn.stone());
    let t = placed(s, row, col, caps);
    let m = MoveView {
        turn: s.turn,
        put_pos: CellPos { row: row as i8, col: col as i8 },
        flipped: caps,
    };
    assert(legal(s.board, m));
    lemma_applied(s.board, m);
    assert(t.undo.drop_last() =~= s.undo);
    assert(t.undo.last() == m);
    assert(t.redo.reverse() =~= Seq::<MoveView>::empty());
    assert(t.board == applied(s.board, m));
}

/// Whose turn it is has no part in consistency: a pass keeps a consistent
/// game consistent.
pub proof fn lemma_turn_keeps_consistent(s: StateView, turn: Turn)
    requires
        s.consistent(),
    ensures
        (StateView { turn, ..s }).consistent(),
{
}

/// Taking a move back keeps a consistent game consistent.
pub proof fn lemma_undo_keeps_consistent(s: StateView)
    requires
        s.consistent(),
        s.undo.len() > 0,
    ensures
        s.undone().consistent(),
{
    let m = s.undo.last();
    let earlier = s.undo.drop_last();
    let before = board_after(initial_grid(), earlier);
    let u = s.undone();
    lemma_board_after_well_formed(initial_grid(), earlier);
    lemma_applied(before, m);
    lemma_applied_then_lifted(before, m);
    assert(u.board == before);
    assert(u.redo.reverse() =~= seq![m] + s.redo.reverse());
    lemma_playable_from_first(before, m, s.redo.reverse());
}

/// Playing an undone move again keeps a consistent game consistent.
pub proof fn lemma_redo_keeps_consistent(s: StateView)
    requires
        s.consistent(),
        s.redo.len() > 0,
    ensures
        s.redone().consistent(),
{
    let m = s.redo.last();
    let rest = s.redo.drop_last().reverse();
    let r = s.redone();
    assert(s.redo.reverse() =~= seq![m] + rest);
    lemma_playable_from_first(s.board, m, rest);
    lemma_applied(s.board, m);
    lemma_replayed_is_applied(s.board, m);
    assert(r.board == applied(s.board, m));
    assert(r.undo.drop_last() =~= s.undo);
    assert(r.undo.last() == m);
}

/// In a consistent game undo followed by redo gives back the board and both
/// stacks. The side to move afterwards is the opponent of the mover. So the
/// whole game is as before the undo exactly when the turn had passed on
/// after that move, which it has not when the move filled the board or a
/// pass followed it.
pub proof fn lemma_undo_then_redo_in_play(s: StateView)
    requires
        s.consistent(),
        s.undo.len() > 0,
    ensures
        s.undo_outcome() is Ok,
        s.undone().redo_outcome() is Ok,
        ({
            let again = s.undone().redone();
            &&& again.board == s.board
            &&& again.undo == s.undo
            &&& again.redo == s.redo
            &&& again.gameover == s.gameover
            &&& again.turn == s.undo.last().turn.opposite()
            &&& (again == s <==> s.turn == s.undo.last().turn.opposite())
        }),
{
    let m = s.undo.last();
    let earlier = s.undo.drop_last();
    lemma_board_after_well_formed(initial_grid(), earlier);
    lemma_applied(board_after(initial_grid(), earlier), m);
    lemma_undo_then_redo(s);
}

/// In a consistent game redo followed by undo gives back the board and both
/// stacks. The side to move afterwards is the mover of the move: the whole
/// game is as before the redo exactly when it was that side's turn.
pub proof fn lemma_redo_then_undo_in_play(s: StateView)
    requires
        s.consistent(),
        s.redo.len() > 0,
    ensures
        s.redo_outcome() is Ok,
        s.redone().undo_outcome() is Ok,
        ({
            let again = s.redone().undone();
            &&& again.board == s.board
            &&& again.undo == s.undo
            &&& again.redo == s.redo
            &&& again.gameover == s.gameover
            &&& again.turn == s.redo.last().turn
            &&& (again == s <==> s.turn == s.redo.last().turn)
        }),
{
    let m = s.redo.last();
    let rest = s.redo.drop_last().reverse();
    let r = s.redone();
    let again = r.undone();
    assert(s.redo.reverse() =~= seq![m] + rest);
    lemma_playable_from_first(s.board, m, rest);
    lemma_replayed_is_applied(s.board, m);
    lemma_applied_then_lifted(s.board, m);
    assert(r.undo.last() == m);
    assert(again.undo =~= s.undo);
    assert(again.redo =~= s.redo);
}

/// Playing stored moves keeps a consistent game consistent.
pub proof fn lemma_replay_keeps_consistent(s: StateView, moves: Seq<MoveView>)
    requires
        s.consistent(),
        replay_outcome(s, moves) is Ok,
    ensures
        replay_outcome(s, moves)->Ok_0.consistent(),
    decreases moves.len(),
{
    if moves.len() > 0 {
        lemma_replay_keeps_consistent(s, moves.drop_last());
        let t = replay_outcome(s, moves.drop_last())->Ok_0;
        let m = moves.last();
        lemma_turn_keeps_consistent(t, m.turn);
        lemma_put_keeps_consistent(
            StateView { turn: m.turn, ..t },
            m.put_pos.row as int,
            m.put_pos.col as int,
        );
    }
}

/// Taking back no more moves than were played keeps a consistent game
/// consistent, and moves the last `n` moves of the undo stack onto the redo
/// stack, the latest first.
pub proof fn lemma_undone_times_consistent(s: StateView, n: nat)
    requires
        s.consistent(),
        n <= s.undo.len(),
    ensures
        undone_times(s, n).consistent(),
        undone_times(s, n).undo == s.undo.take(s.undo.len() - n),
        undone_times(s, n).redo == s.redo + s.undo.skip(s.undo.len() - n).reverse(),
    decreases n,
{
    let back = undone_times(s, n);
    if n > 0 {
        let before = undone_times(s, (n - 1) as nat);
        lemma_undone_times_consistent(s, (n - 1) as nat);
        lemma_undo_keeps_consistent(before);
        assert(back.undo =~= s.undo.take(s.undo.len() - n));
        assert(back.redo =~= s.redo + s.undo.skip(s.undo.len() - n).reverse());
    } else {
        assert(back.undo =~= s.undo.take(s.undo.len() - n));
        assert(back.redo =~= s.redo + s.undo.skip(s.undo.len() - n).reverse());
    }
}

/// Two lists of moves name the same sides and cells, move for move.
pub open spec fn same_places(stored: Seq<MoveView>, played: Seq<MoveView>) -> bool {
    &&& stored.len() == played.len()
    &&& forall|i: int|
        0 <= i < stored.len() ==> (#[trigger] stored[i]).turn == played[i].turn
            && stored[i].put_pos == played[i].put_pos
}

/// Moves that could be played are played again from their sides and cells
/// alone: the replay finds their captures anew, and records the moves as they
/// were.
pub proof fn lemma_replay_of_played(s: StateView, stored: Seq<MoveView>, played: Seq<MoveView>)
    requires
        playable_from(s.board, played),
        same_places(stored, played),
    ensures
        replay_outcome(s, stored) is Ok,
        replay_outcome(s, stored)->Ok_0.board == board_after(s.board, played),
        replay_outcome(s, stored)->Ok_0.undo == s.undo + played,
        played.len() > 0 ==> replay_outcome(s, stored)->Ok_0.redo.len() == 0,
        played.len() == 0 ==> replay_outcome(s, stored)->Ok_0.redo == s.redo,
    decreases played.len(),
{
    if played.len() > 0 {
        lemma_replay_of_played(s, stored.drop_last(), played.drop_last());
        let t = replay_outcome(s, stored.drop_last())->Ok_0;
        let m = played.last();
        assert(stored.last().turn == m.turn && stored.last().put_pos == m.put_pos);
        assert(legal(t.board, m));
        let after = replay_outcome(s, stored)->Ok_0;
        assert(after.undo =~= s.undo + played);
    } else {
        assert(s.undo + played =~= s.undo);
    }
}

/// What is stored of a consistent game rebuilds it: the sides and cells of
/// the moves of the undo stack, and then those of the redo stack from its top
/// down, give back the board and both stacks.
pub proof fn lemma_restore_gives_the_game_back(
    s: StateView,
    undo_list: Seq<MoveView>,
    redo_list: Seq<MoveView>,
)
    requires
        s.consistent(),
        same_places(undo_list, s.undo),
        same_places(redo_list, s.redo.reverse()),
    ensures
        restore_outcome(undo_list, redo_list) is Ok,
        ({
            let again = restore_outcome(undo_list, redo_list)->Ok_0;
            &&& again.board == s.board
            &&& again.undo == s.undo
            &&& again.redo == s.redo
        }),
{
    let start = StateView::initial();
    let played = s.undo + s.redo.reverse();
    let stored = undo_list + redo_list;
    lemma_playable_from_joined(initial_grid(), s.undo, s.redo.reverse());
    assert(same_places(stored, played));
    lemma_replay_of_played(start, stored, played);
    lemma_initial_consistent();
    lemma_replay_keeps_consistent(start, stored);
    let t = replay_outcome(start, stored)->Ok_0;
    assert(t.undo =~= played);
    lemma_undone_times_consistent(t, redo_list.len());
    let again = undone_times(t, redo_list.len());
    assert(again.undo =~= s.undo);
    assert(played.skip(played.len() - redo_list.len()) =~= s.redo.reverse());
    assert(s.redo.reverse().reverse() =~= s.redo);
    assert(again.redo =~= s.redo);
}

/// A game rebuilt from stored moves is consistent.
pub proof fn lemma_restored_is_consistent(undo_list: Seq<MoveView>, redo_list: Seq<MoveView>)
    requires
        restore_outcome(undo_list, redo_list) is Ok,
    ensures
        restore_outcome(undo_list, redo_list)->Ok_0.consistent(),
{
    let all = undo_list + redo_list;
    lemma_initial_consistent();
    lemma_replay_keeps_consistent(StateView::initial(), all);
    let t = replay_outcome(StateView::initial(), all)->Ok_0;
    lemma_replay_grows(StateView::initial(), all);
    lemma_undone_times_consistent(t, redo_list.len());
}

} // verus!
