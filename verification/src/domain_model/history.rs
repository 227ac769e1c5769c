use vstd::prelude::*;
use crate::domain_model::cell::CellState;
use crate::domain_model::cell_pos::CellPos;
use crate::domain_model::grid::{
    Grid, brackets, capturable, capturable_upto, directions, flip_all, in_playable_range,
    in_scan_range, initial_grid, is_step, lemma_directions_are_steps, lemma_flip_all_cell,
    lemma_flip_all_twice, lemma_flip_all_well_formed, lemma_flips_of_absent, ray_cell, ray_pos,
    run_in_direction, well_formed, with_cell,
};
use crate::domain_model::move_record::MoveView;
use crate::domain_model::reversi_state::StateView;

verus! {

/// The move can be played on the grid: its cell is playable and blank, and
/// what it records as turned over is what its stone captures there, which is
/// something.
pub open spec fn legal(g: Grid, m: MoveView) -> bool {
    &&& m.put_pos.playable()
    &&& g[m.put_pos.row as int][m.put_pos.col as int] == CellState::BlankCell
    &&& m.flipped == capturable(g, m.put_pos.row as int, m.put_pos.col as int, m.turn.stone())
    &&& m.flipped.len() > 0
}

/// The grid after the move: its stone is placed and its captures are turned
/// over.
pub open spec fn applied(g: Grid, m: MoveView) -> Grid {
    flip_all(with_cell(g, m.put_pos.row as int, m.put_pos.col as int, m.turn.stone()), m.flipped)
}

/// The grid after the moves, played first to last.
pub open spec fn board_after(g: Grid, moves: Seq<MoveView>) -> Grid
    decreases moves.len(),
{
    if moves.len() == 0 {
        g
    } else {
        applied(board_after(g, moves.drop_last()), moves.last())
    }
}

/// Each of the moves can be played on the grid that the moves before it
/// leave.
pub open spec fn playable_from(g: Grid, moves: Seq<MoveView>) -> bool
    decreases moves.len(),
{
    moves.len() == 0 || (playable_from(g, moves.drop_last()) && legal(
        board_after(g, moves.drop_last()),
        moves.last(),
    ))
}

impl StateView {
    /// The board is what the moves of the undo stack make of the opening
    /// position, and the moves of the redo stack can be played on from it, the
    /// last of the stack first.
    pub open spec fn consistent(self) -> bool {
        &&& self.wf()
        &&& playable_from(initial_grid(), self.undo)
        &&& self.board == board_after(initial_grid(), self.undo)
        &&& playable_from(self.board, self.redo.reverse())
    }
}

/// The cells of a bracketed run lie in the playable area.
pub proof fn lemma_run_is_playable(
    g: Grid,
    row: int,
    col: int,
    dir: CellPos,
    stone: CellState,
    n: int,
    k: int,
)
    requires
        well_formed(g),
        in_playable_range(row, col),
        is_step(dir),
        stone.is_stone(),
        forall|j: int| 1 <= j <= n ==> #[trigger] ray_cell(g, row, col, dir, j) == stone.reversed(),
        1 <= k <= n,
    ensures
        in_playable_range(row + dir.row * k, col + dir.col * k),
    decreases k,
{
    if k > 1 {
        lemma_run_is_playable(g, row, col, dir, stone, n, k - 1);
    }
    assert(dir.row * k == dir.row * (k - 1) + dir.row) by (nonlinear_arith);
    assert(dir.col * k == dir.col * (k - 1) + dir.col) by (nonlinear_arith);
    assert(dir.row * 0 == 0 && dir.col * 0 == 0);
    assert(in_scan_range(row + dir.row * k, col + dir.col * k));
    assert(ray_cell(g, row, col, dir, k) == stone.reversed());
    assert(g[row + dir.row * k][col + dir.col * k] != CellState::OuterCell);
}

/// What is captured along one direction lies in the playable area and does
/// not hold the cell on which the stone is placed.
pub proof fn lemma_run_cells(g: Grid, row: int, col: int, dir: CellPos, stone: CellState)
    requires
        well_formed(g),
        in_playable_range(row, col),
        is_step(dir),
        stone.is_stone(),
    ensures
        forall|i: int|
            0 <= i < run_in_direction(g, row, col, dir, stone).len() ==> {
                let p = #[trigger] run_in_direction(g, row, col, dir, stone)[i];
                p.playable() && !(p.row == row && p.col == col)
            },
{
    if exists|n: int| brackets(g, row, col, dir, stone, n) {
        let n = choose|n: int| brackets(g, row, col, dir, stone, n);
        let run = run_in_direction(g, row, col, dir, stone);
        assert forall|i: int| 0 <= i < run.len() implies {
            let p = #[trigger] run[i];
            p.playable() && !(p.row == row && p.col == col)
        } by {
            let k = i + 1;
            lemma_run_is_playable(g, row, col, dir, stone, n, k);
            assert(run[i] == ray_pos(row, col, dir, k));
            assert(!(dir.row * k == 0 && dir.col * k == 0)) by (nonlinear_arith)
                requires
                    k >= 1,
                    !(dir.row == 0 && dir.col == 0),
            ;
        }
    }
}

/// What is captured along the first `d` directions lies in the playable area
/// and does not hold the cell on which the stone is placed.
pub proof fn lemma_capturable_upto_cells(g: Grid, row: int, col: int, stone: CellState, d: nat)
    requires
        well_formed(g),
        in_playable_range(row, col),
        stone.is_stone(),
        d <= 8,
    ensures
        forall|i: int|
            0 <= i < capturable_upto(g, row, col, stone, d).len() ==> {
                let p = #[trigger] capturable_upto(g, row, col, stone, d)[i];
                p.playable() && !(p.row == row && p.col == col)
            },
    decreases d,
{
    if d > 0 {
        lemma_directions_are_steps();
        lemma_capturable_upto_cells(g, row, col, stone, (d - 1) as nat);
        lemma_run_cells(g, row, col, directions()[d - 1], stone);
        let before = capturable_upto(g, row, col, stone, (d - 1) as nat);
        let run = run_in_direction(g, row, col, directions()[d - 1], stone);
        let all = capturable_upto(g, row, col, stone, d);
        assert forall|i: int| 0 <= i < all.len() implies {
            let p = #[trigger] all[i];
            p.playable() && !(p.row == row && p.col == col)
        } by {
            if i < before.len() {
                assert(all[i] == before[i]);
            } else {
                assert(all[i] == run[i - before.len()]);
            }
        }
    }
}

/// Every captured cell lies in the playable area, and the cell on which the
/// stone is placed is never among the captures.
pub proof fn lemma_capturable_cells(g: Grid, row: int, col: int, stone: CellState)
    requires
        well_formed(g),
        in_playable_range(row, col),
        stone.is_stone(),
    ensures
        forall|i: int|
            0 <= i < capturable(g, row, col, stone).len() ==> {
                let p = #[trigger] capturable(g, row, col, stone)[i];
                p.playable() && !(p.row == row && p.col == col)
            },
{
    lemma_capturable_upto_cells(g, row, col, stone, 8);
}

/// A legal move leaves a well-formed grid well formed, with the mover's stone
/// on the cell of the move, and names playable cells only.
pub proof fn lemma_applied(g: Grid, m: MoveView)
    requires
        well_formed(g),
        legal(g, m),
    ensures
        well_formed(applied(g, m)),
        m.wf(),
        applied(g, m)[m.put_pos.row as int][m.put_pos.col as int] == m.turn.stone(),
{
    let row = m.put_pos.row as int;
    let col = m.put_pos.col as int;
    let placed = with_cell(g, row, col, m.turn.stone());
    lemma_capturable_cells(g, row, col, m.turn.stone());
    assert(well_formed(placed));
    lemma_flip_all_well_formed(placed, m.flipped);
    lemma_flip_all_cell(placed, m.flipped, row, col);
    lemma_flips_of_absent(m.turn.stone(), m.flipped, row, col);
}

/// Taking a legal move back gives the grid on which it was played.
pub proof fn lemma_applied_then_lifted(g: Grid, m: MoveView)
    requires
        well_formed(g),
        legal(g, m),
    ensures
        with_cell(
            flip_all(applied(g, m), m.flipped),
            m.put_pos.row as int,
            m.put_pos.col as int,
            CellState::BlankCell,
        ) == g,
{
    let row = m.put_pos.row as int;
    let col = m.put_pos.col as int;
    let placed = with_cell(g, row, col, m.turn.stone());
    assert(well_formed(placed));
    lemma_flip_all_twice(placed, m.flipped);
    assert(with_cell(placed, row, col, CellState::BlankCell) =~~= g);
}

/// Playing a legal move again, as redo does it, gives the same grid as
/// playing it the first time.
pub proof fn lemma_replayed_is_applied(g: Grid, m: MoveView)
    requires
        well_formed(g),
        legal(g, m),
    ensures
        with_cell(
            flip_all(g, m.flipped),
            m.put_pos.row as int,
            m.put_pos.col as int,
            m.turn.stone(),
        ) == applied(g, m),
{
    let row = m.put_pos.row as int;
    let col = m.put_pos.col as int;
    let placed = with_cell(g, row, col, m.turn.stone());
    let turned = flip_all(g, m.flipped);
    let again = with_cell(turned, row, col, m.turn.stone());
    lemma_capturable_cells(g, row, col, m.turn.stone());
    assert(well_formed(placed));
    lemma_flip_all_well_formed(g, m.flipped);
    lemma_flip_all_well_formed(placed, m.flipped);
    assert forall|r: int, c: int| in_scan_range(r, c) implies #[trigger] again[r][c] == applied(
        g,
        m,
    )[r][c] by {
        lemma_flip_all_cell(g, m.flipped, r, c);
        lemma_flip_all_cell(placed, m.flipped, r, c);
        if r == row && c == col {
            lemma_flips_of_absent(m.turn.stone(), m.flipped, row, col);
        }
    }
    assert(again =~~= applied(g, m));
}

/// The moves that can be played from a well-formed grid leave it well formed.
pub proof fn lemma_board_after_well_formed(g: Grid, moves: Seq<MoveView>)
    requires
        well_formed(g),
        playable_from(g, moves),
    ensures
        well_formed(board_after(g, moves)),
    decreases moves.len(),
{
    if moves.len() > 0 {
        lemma_board_after_well_formed(g, moves.drop_last());
        lemma_applied(board_after(g, moves.drop_last()), moves.last());
    }
}

/// A list can be played exactly when its first move can and the rest can be
/// played after it.
pub proof fn lemma_playable_from_first(g: Grid, m: MoveView, rest: Seq<MoveView>)
    ensures
        playable_from(g, seq![m] + rest) == (legal(g, m) && playable_from(applied(g, m), rest)),
        board_after(g, seq![m] + rest) == board_after(applied(g, m), rest),
    decreases rest.len(),
{
    let all = seq![m] + rest;
    if rest.len() == 0 {
        let none = Seq::<MoveView>::empty();
        assert(all.drop_last() =~= none);
        assert(rest =~= none);
        assert(all.last() == m);
        assert(playable_from(g, none));
        assert(board_after(g, none) == g);
        assert(playable_from(applied(g, m), none));
        assert(board_after(applied(g, m), none) == applied(g, m));
    } else {
        lemma_playable_from_first(g, m, rest.drop_last());
        assert(all.drop_last() =~= seq![m] + rest.drop_last());
        assert(all.last() == rest.last());
    }
}

/// Two lists can be played one after the other exactly when the first can be
/// played and the second can be played on what the first leaves.
pub proof fn lemma_playable_from_joined(g: Grid, first: Seq<MoveView>, second: Seq<MoveView>)
    ensures
        playable_from(g, first + second) == (playable_from(g, first) && playable_from(
            board_after(g, first),
            second,
        )),
        board_after(g, first + second) == board_after(board_after(g, first), second),
    decreases second.len(),
{
    let all = first + second;
    if second.len() == 0 {
        assert(all =~= first);
    } else {
        lemma_playable_from_joined(g, first, second.drop_last());
        assert(all.drop_last() =~= first + second.drop_last());
        assert(all.last() == second.last());
    }
}

} // verus!
