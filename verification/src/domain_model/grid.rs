use vstd::prelude::*;
use crate::domain_model::cell::CellState;
use crate::domain_model::cell_pos::CellPos;

verus! {

/// The mathematical picture of a board: ten rows of ten cells.
pub type Grid = Seq<Seq<CellState>>;

/// Both coordinates are in 1..=8.
pub open spec fn in_playable_range(row: int, col: int) -> bool {
    1 <= row <= 8 && 1 <= col <= 8
}

/// Both coordinates are in 0..=9, so the ring counts too.
pub open spec fn in_scan_range(row: int, col: int) -> bool {
    0 <= row <= 9 && 0 <= col <= 9
}

/// A grid is well formed when it is 10x10 and exactly the cells of the ring
/// are outer cells.
pub open spec fn well_formed(g: Grid) -> bool {
    &&& g.len() == 10
    &&& forall|r: int| 0 <= r < 10 ==> (#[trigger] g[r]).len() == 10
    &&& forall|r: int, c: int|
        in_scan_range(r, c) ==> ((#[trigger] g[r][c]) == CellState::OuterCell
            <==> !in_playable_range(r, c))
}

/// The grid with one cell replaced.
pub open spec fn with_cell(g: Grid, row: int, col: int, s: CellState) -> Grid {
    g.update(row, g[row].update(col, s))
}

/// What each cell holds when a game starts.
pub open spec fn initial_cell(row: int, col: int) -> CellState {
    if !in_playable_range(row, col) {
        CellState::OuterCell
    } else if (row == 4 && col == 4) || (row == 5 && col == 5) {
        CellState::WhiteStone
    } else if (row == 4 && col == 5) || (row == 5 && col == 4) {
        CellState::BlackStone
    } else {
        CellState::BlankCell
    }
}

/// The grid at the start of a game.
pub open spec fn initial_grid() -> Grid {
    Seq::new(10, |r: int| Seq::new(10, |c: int| initial_cell(r, c)))
}

/// Some playable cell is blank.
pub open spec fn has_blank(g: Grid) -> bool {
    exists|r: int, c: int| in_playable_range(r, c) && #[trigger] g[r][c] == CellState::BlankCell
}

/// How many of the first `n` playable cells, taken row by row, hold `s`.
pub open spec fn count_in(g: Grid, s: CellState, n: nat) -> nat
    decreases n,
{
    if n == 0 {
        0
    } else {
        let k = (n - 1) as int;
        count_in(g, s, k as nat) + if g[1 + k / 8][1 + k % 8] == s {
            1nat
        } else {
            0nat
        }
    }
}

/// How many of the 64 playable cells hold `s`.
pub open spec fn count(g: Grid, s: CellState) -> nat {
    count_in(g, s, 64)
}

/// The grid with the stone at `p` turned over. A blank or an outer cell is
/// left as it is, and so is the grid when `p` is not on it.
pub open spec fn flip_one(g: Grid, p: CellPos) -> Grid {
    if p.on_grid() {
        with_cell(g, p.row as int, p.col as int, g[p.row as int][p.col as int].reversed())
    } else {
        g
    }
}

/// The grid after turning over the cells of `ps`, first to last.
pub open spec fn flip_all(g: Grid, ps: Seq<CellPos>) -> Grid
    decreases ps.len(),
{
    if ps.len() == 0 {
        g
    } else {
        flip_one(flip_all(g, ps.drop_last()), ps.last())
    }
}

/// The eight steps of the capture search, in the order in which it looks.
pub open spec fn directions() -> Seq<CellPos> {
    seq![
        CellPos { row: 0, col: 1 },
        CellPos { row: 1, col: 1 },
        CellPos { row: 1, col: 0 },
        CellPos { row: 1, col: -1i8 },
        CellPos { row: 0, col: -1i8 },
        CellPos { row: -1i8, col: -1i8 },
        CellPos { row: -1i8, col: 0 },
        CellPos { row: -1i8, col: 1 },
    ]
}

/// A step to a neighbouring cell: not (0, 0), each part in -1..=1.
pub open spec fn is_step(dir: CellPos) -> bool {
    -1 <= dir.row <= 1 && -1 <= dir.col <= 1 && !(dir.row == 0 && dir.col == 0)
}

/// The position `k` steps away from (`row`, `col`) along `dir`.
pub open spec fn ray_pos(row: int, col: int, dir: CellPos, k: int) -> CellPos {
    CellPos { row: (row + dir.row * k) as i8, col: (col + dir.col * k) as i8 }
}

/// What the cell `k` steps away from (`row`, `col`) along `dir` holds.
pub open spec fn ray_cell(g: Grid, row: int, col: int, dir: CellPos, k: int) -> CellState {
    g[row + dir.row * k][col + dir.col * k]
}

/// Along `dir`, the first `n` cells after (`row`, `col`) hold the colour
/// opposite to `stone`, and the cell after them holds `stone`.
pub open spec fn brackets(
    g: Grid,
    row: int,
    col: int,
    dir: CellPos,
    stone: CellState,
    n: int,
) -> bool {
    &&& 0 <= n
    &&& forall|k: int| 1 <= k <= n ==> #[trigger] ray_cell(g, row, col, dir, k) == stone.reversed()
    &&& ray_cell(g, row, col, dir, n + 1) == stone
}

/// The cells that a stone placed at (`row`, `col`) captures along `dir`,
/// nearest first: the bracketed run if there is one, else nothing.
pub open spec fn run_in_direction(
    g: Grid,
    row: int,
    col: int,
    dir: CellPos,
    stone: CellState,
) -> Seq<CellPos> {
    if exists|n: int| brackets(g, row, col, dir, stone, n) {
        let n = choose|n: int| brackets(g, row, col, dir, stone, n);
        Seq::new(n as nat, |k: int| ray_pos(row, col, dir, k + 1))
    } else {
        Seq::empty()
    }
}

/// The captures along the first `d` directions, one direction after the other.
pub open spec fn capturable_upto(
    g: Grid,
    row: int,
    col: int,
    stone: CellState,
    d: nat,
) -> Seq<CellPos>
    decreases d,
{
    if d == 0 {
        Seq::empty()
    } else {
        capturable_upto(g, row, col, stone, (d - 1) as nat) + run_in_direction(
            g,
            row,
            col,
            directions()[d - 1],
            stone,
        )
    }
}

/// Every cell that a stone placed at (`row`, `col`) captures.
pub open spec fn capturable(g: Grid, row: int, col: int, stone: CellState) -> Seq<CellPos> {
    capturable_upto(g, row, col, stone, 8)
}

/// There are eight directions, each a step to a neighbouring cell.
pub proof fn lemma_directions_are_steps()
    ensures
        directions().len() == 8,
        forall|d: int| 0 <= d < 8 ==> is_step(#[trigger] directions()[d]),
{
}

/// No more than `n` of the first `n` playable cells hold `s`.
pub proof fn lemma_count_in_bound(g: Grid, s: CellState, n: nat)
    ensures
        count_in(g, s, n) <= n,
    decreases n,
{
    if n > 0 {
        lemma_count_in_bound(g, s, (n - 1) as nat);
    }
}

/// Turning cells over keeps a grid well formed: the ring is its own reverse,
/// and a playable cell never becomes an outer cell.
pub proof fn lemma_flip_all_well_formed(g: Grid, ps: Seq<CellPos>)
    requires
        well_formed(g),
    ensures
        well_formed(flip_all(g, ps)),
    decreases ps.len(),
{
    if ps.len() > 0 {
        lemma_flip_all_well_formed(g, ps.drop_last());
    }
}

/// Once the cells along `dir` have been walked to the first one that does not
/// hold the opposite colour, the capture along `dir` is known: the cells walked
/// over if that cell holds `stone`, nothing otherwise.
pub proof fn lemma_run_found(g: Grid, row: int, col: int, dir: CellPos, stone: CellState, n: int)
    requires
        stone.is_stone(),
        0 <= n,
        forall|k: int| 1 <= k <= n ==> #[trigger] ray_cell(g, row, col, dir, k) == stone.reversed(),
        ray_cell(g, row, col, dir, n + 1) != stone.reversed(),
    ensures
        run_in_direction(g, row, col, dir, stone) == if ray_cell(g, row, col, dir, n + 1) == stone {
            Seq::new(n as nat, |k: int| ray_pos(row, col, dir, k + 1))
        } else {
            Seq::empty()
        },
{
    if ray_cell(g, row, col, dir, n + 1) == stone {
        assert(brackets(g, row, col, dir, stone, n));
        let m = choose|m: int| brackets(g, row, col, dir, stone, m);
        assert(brackets(g, row, col, dir, stone, m));
        if m < n {
            assert(ray_cell(g, row, col, dir, m + 1) == stone.reversed());
        } else if m > n {
            assert(ray_cell(g, row, col, dir, n + 1) == stone.reversed());
        }
        assert(m == n);
    } else {
        assert forall|m: int| !brackets(g, row, col, dir, stone, m) by {
            if brackets(g, row, col, dir, stone, m) {
                if m < n {
                    assert(ray_cell(g, row, col, dir, m + 1) == stone.reversed());
                } else if m > n {
                    assert(ray_cell(g, row, col, dir, n + 1) == stone.reversed());
                }
            }
        }
    }
}

/// What a cell at (`row`, `col`) that held `v` holds after the cells of `ps`
/// have been turned over: `v` turned over once for each time that the cell
/// occurs in `ps`.
pub open spec fn flips_of(v: CellState, ps: Seq<CellPos>, row: int, col: int) -> CellState
    decreases ps.len(),
{
    if ps.len() == 0 {
        v
    } else {
        let w = flips_of(v, ps.drop_last(), row, col);
        if ps.last().row == row && ps.last().col == col {
            w.reversed()
        } else {
            w
        }
    }
}

/// Turning a list of cells over acts on each cell of the grid by itself.
pub proof fn lemma_flip_all_cell(g: Grid, ps: Seq<CellPos>, row: int, col: int)
    requires
        well_formed(g),
        in_scan_range(row, col),
    ensures
        flip_all(g, ps)[row][col] == flips_of(g[row][col], ps, row, col),
    decreases ps.len(),
{
    if ps.len() > 0 {
        lemma_flip_all_cell(g, ps.drop_last(), row, col);
        lemma_flip_all_well_formed(g, ps.drop_last());
    }
}

/// Turning over the reverse of a stone gives the reverse of what turning over
/// the stone gives.
pub proof fn lemma_flips_of_reversed(v: CellState, ps: Seq<CellPos>, row: int, col: int)
    ensures
        flips_of(v.reversed(), ps, row, col) == flips_of(v, ps, row, col).reversed(),
    decreases ps.len(),
{
    if ps.len() > 0 {
        lemma_flips_of_reversed(v, ps.drop_last(), row, col);
    }
}

/// Turning the same list over twice brings every cell back.
pub proof fn lemma_flips_of_twice(v: CellState, ps: Seq<CellPos>, row: int, col: int)
    ensures
        flips_of(flips_of(v, ps, row, col), ps, row, col) == v,
    decreases ps.len(),
{
    if ps.len() > 0 {
        let w = flips_of(v, ps.drop_last(), row, col);
        lemma_flips_of_twice(v, ps.drop_last(), row, col);
        if ps.last().row == row && ps.last().col == col {
            lemma_flips_of_reversed(w, ps.drop_last(), row, col);
        }
    }
}

/// A cell that is in none of the positions of `ps` keeps what it holds.
pub proof fn lemma_flips_of_absent(v: CellState, ps: Seq<CellPos>, row: int, col: int)
    requires
        forall|i: int| 0 <= i < ps.len() ==> !((#[trigger] ps[i]).row == row && ps[i].col == col),
    ensures
        flips_of(v, ps, row, col) == v,
    decreases ps.len(),
{
    if ps.len() > 0 {
        lemma_flips_of_absent(v, ps.drop_last(), row, col);
    }
}

/// Turning a list of cells over twice gives the grid back.
pub proof fn lemma_flip_all_twice(g: Grid, ps: Seq<CellPos>)
    requires
        well_formed(g),
    ensures
        flip_all(flip_all(g, ps), ps) == g,
{
    let h = flip_all(g, ps);
    let k = flip_all(h, ps);
    lemma_flip_all_well_formed(g, ps);
    lemma_flip_all_well_formed(h, ps);
    assert forall|r: int, c: int| in_scan_range(r, c) implies #[trigger] k[r][c] == g[r][c] by {
        lemma_flip_all_cell(g, ps, r, c);
        lemma_flip_all_cell(h, ps, r, c);
        lemma_flips_of_twice(g[r][c], ps, r, c);
    }
    assert(k =~~= g);
}

/// The three kinds of playable cell share out the first `n` playable cells.
pub proof fn lemma_count_in_partition(g: Grid, n: nat)
    requires
        well_formed(g),
        n <= 64,
    ensures
        count_in(g, CellState::BlackStone, n) + count_in(g, CellState::WhiteStone, n) + count_in(
            g,
            CellState::BlankCell,
            n,
        ) == n,
    decreases n,
{
    if n > 0 {
        lemma_count_in_partition(g, (n - 1) as nat);
        let k = (n - 1) as int;
        assert(in_playable_range(1 + k / 8, 1 + k % 8));
        assert(g[1 + k / 8][1 + k % 8] != CellState::OuterCell);
    }
}

} // verus!
