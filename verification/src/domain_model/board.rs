use vstd::prelude::*;
use crate::domain_model::cell::{CellState, ICellState};
use crate::domain_model::cell_pos::CellPos;
use crate::domain_model::grid::{
    Grid, capturable, capturable_upto, count, count_in, directions, flip_all, has_blank,
    in_playable_range, in_scan_range, initial_cell, initial_grid, is_step, lemma_count_in_bound,
    lemma_directions_are_steps, lemma_flip_all_well_formed, lemma_run_found, ray_cell, ray_pos,
    well_formed, with_cell,
};
use crate::error::{ErrorKind, ReversiError};

verus! {

/// The 8x8 playable area inside a ring of outer cells, which lets the capture
/// search walk in any direction without testing for the edge.
#[derive(Debug)]
pub struct Board {
    pub cells: [[CellState; 10]; 10],
    /// The eight steps of the capture search; never changed after `new`.
    pub search_directions: [CellPos; 8],
}

impl View for Board {
    type V = Grid;

    open spec fn view(&self) -> Grid {
        Seq::new(10, |r: int| self.cells[r]@)
    }
}

impl Board {
    /// The ring, and only the ring, holds outer cells, and the directions are
    /// the eight of the search in their fixed order.
    pub open spec fn wf(self) -> bool {
        well_formed(self@) && self.search_directions@ == directions()
    }

    /// The eight steps of the capture search: east first, then on round
    /// through south, west and north.
    fn search_steps() -> (steps: [CellPos; 8])
        ensures
            steps@ == directions(),
    {
        let steps = [
            CellPos { row: 0, col: 1 },
            CellPos { row: 1, col: 1 },
            CellPos { row: 1, col: 0 },
            CellPos { row: 1, col: -1 },
            CellPos { row: 0, col: -1 },
            CellPos { row: -1, col: -1 },
            CellPos { row: -1, col: 0 },
            CellPos { row: -1, col: 1 },
        ];
        assert(steps@ =~= directions());
        steps
    }

    /// The board at the start of a game: two stones of each colour in the
    /// middle, every other playable cell blank.
    pub fn new() -> (b: Board)
        ensures
            b.wf(),
            b@ == initial_grid(),
    {
        let search_dir = Board::search_steps();
        let mut cells = [[CellState::OuterCell; 10]; 10];
        let mut i: usize = 1;
        while i <= 8
            invariant
                1 <= i <= 9,
                forall|r: int, c: int|
                    in_scan_range(r, c) ==> #[trigger] cells[r][c] == if in_playable_range(r, c)
                        && r < i {
                        CellState::BlankCell
                    } else {
                        CellState::OuterCell
                    },
            decreases 9 - i,
        {
            let mut j: usize = 1;
            while j <= 8
                invariant
                    1 <= i <= 8,
                    1 <= j <= 9,
                    forall|r: int, c: int|
                        in_scan_range(r, c) ==> #[trigger] cells[r][c] == if in_playable_range(r, c)
                            && (r < i || (r == i && c < j)) {
                            CellState::BlankCell
                        } else {
                            CellState::OuterCell
                        },
                decreases 9 - j,
            {
                cells[i][j] = CellState::BlankCell;
                j += 1;
            }
            i += 1;
        }
        cells[4][4] = CellState::WhiteStone;
        cells[4][5] = CellState::BlackStone;
        cells[5][4] = CellState::BlackStone;
        cells[5][5] = CellState::WhiteStone;
        let b = Board { cells, search_directions: search_dir };
        proof {
            assert forall|r: int, c: int| in_scan_range(r, c) implies #[trigger] b@[r][c]
                == initial_cell(r, c) by {
                assert(b@[r][c] == cells[r][c]);
            }
            assert(b@ =~~= initial_grid());
        }
        b
    }

    /// Tests at run time whether the board is well formed.
    pub fn is_well_formed(&self) -> (r: bool)
        ensures
            r == self.wf(),
    {
        let mut row: usize = 0;
        while row < 10
            invariant
                row <= 10,
                forall|r: int, c: int|
                    in_scan_range(r, c) && r < row ==> ((#[trigger] self@[r][c])
                        == CellState::OuterCell <==> !in_playable_range(r, c)),
            decreases 10 - row,
        {
            let mut col: usize = 0;
            while col < 10
                invariant
                    row < 10,
                    col <= 10,
                    forall|r: int, c: int|
                        in_scan_range(r, c) && (r < row || (r == row && c < col)) ==> ((
                        #[trigger] self@[r][c]) == CellState::OuterCell <==> !in_playable_range(
                            r,
                            c,
                        )),
                decreases 10 - col,
            {
                let outer = self.cells[row][col] == CellState::OuterCell;
                if outer == self.is_in_range(row, col) {
                    assert(self@[row as int][col as int] == self.cells[row as int][col as int]);
                    return false;
                }
                col += 1;
            }
            row += 1;
        }
        let expected = Board::search_steps();
        let mut d: usize = 0;
        while d < 8
            invariant
                d <= 8,
                expected@ == directions(),
                forall|e: int| 0 <= e < d ==> self.search_directions@[e] == expected@[e],
            decreases 8 - d,
        {
            if self.search_directions[d].row != expected[d].row || self.search_directions[d].col
                != expected[d].col {
                return false;
            }
            d += 1;
        }
        assert(self.search_directions@ =~= directions());
        true
    }

    /// True iff both coordinates are in 1..=8.
    pub fn is_in_range(&self, row: usize, col: usize) -> (r: bool)
        ensures
            r == in_playable_range(row as int, col as int),
    {
        !(row < 1 || 8 < row || col < 1 || 8 < col)
    }

    /// True iff both coordinates are in 0..=9.
    pub fn is_in_range_with_outercell(&self, row: usize, col: usize) -> (r: bool)
        ensures
            r == in_scan_range(row as int, col as int),
    {
        !(9 < row || 9 < col)
    }

    /// What the cell holds, for any cell of the grid, ring included.
    pub fn get_cell(&self, row: usize, col: usize) -> (r: Option<CellState>)
        ensures
            r == if in_scan_range(row as int, col as int) {
                Some(self@[row as int][col as int])
            } else {
                None
            },
    {
        if self.is_in_range_with_outercell(row, col) {
            Some(self.cells[row][col])
        } else {
            None
        }
    }

    /// Writes one playable cell; the ring cannot be written.
    pub fn set_cell(&mut self, row: usize, col: usize, cell_state: CellState) -> (r: Result<
        (),
        ReversiError,
    >)
        ensures
            match r {
                Ok(_) => in_playable_range(row as int, col as int) && final(self)@ == with_cell(
                    old(self)@,
                    row as int,
                    col as int,
                    cell_state,
                ),
                Err(e) => !in_playable_range(row as int, col as int) && e.is_of(
                    ErrorKind::OutOfRange,
                ) && *final(self) == *old(self),
            },
            final(self).search_directions == old(self).search_directions,
            old(self).wf() && cell_state != CellState::OuterCell ==> final(self).wf(),
    {
        if self.is_in_range(row, col) {
            self.cells[row][col] = cell_state;
            proof {
                assert(self@ =~~= with_cell(old(self)@, row as int, col as int, cell_state));
            }
            Ok(())
        } else {
            Err(ReversiError::of(ErrorKind::OutOfRange))
        }
    }

    /// True iff some playable cell is blank.
    pub fn has_blank_cell(&self) -> (r: bool)
        ensures
            r == has_blank(self@),
    {
        let mut row: usize = 1;
        while row <= 8
            invariant
                1 <= row <= 9,
                forall|r: int, c: int|
                    in_playable_range(r, c) && r < row ==> #[trigger] self@[r][c]
                        != CellState::BlankCell,
            decreases 9 - row,
        {
            let mut col: usize = 1;
            while col <= 8
                invariant
                    1 <= row <= 8,
                    1 <= col <= 9,
                    forall|r: int, c: int|
                        in_playable_range(r, c) && (r < row || (r == row && c < col))
                            ==> #[trigger] self@[r][c] != CellState::BlankCell,
                decreases 9 - col,
            {
                if self.cells[row][col] == CellState::BlankCell {
                    assert(self@[row as int][col as int] == CellState::BlankCell);
                    return true;
                }
                col += 1;
            }
            row += 1;
        }
        false
    }

    /// How many playable cells hold a black stone.
    pub fn count_black_stones(&self) -> (n: i8)
        ensures
            n == count(self@, CellState::BlackStone),
            0 <= n <= 64,
    {
        let mut black_stone_count: i8 = 0;
        let mut row: usize = 1;
        while row <= 8
            invariant
                1 <= row <= 9,
                black_stone_count == count_in(
                    self@,
                    CellState::BlackStone,
                    ((row - 1) * 8) as nat,
                ),
            decreases 9 - row,
        {
            let mut col: usize = 1;
            while col <= 8
                invariant
                    1 <= row <= 8,
                    1 <= col <= 9,
                    black_stone_count == count_in(
                        self@,
                        CellState::BlackStone,
                        ((row - 1) * 8 + (col - 1)) as nat,
                    ),
                decreases 9 - col,
            {
                proof {
                    lemma_count_in_bound(
                        self@,
                        CellState::BlackStone,
                        ((row - 1) * 8 + (col - 1)) as nat,
                    );
                    assert(self@[row as int][col as int] == self.cells[row as int][col as int]);
                }
                if self.cells[row][col] == CellState::BlackStone {
                    black_stone_count += 1;
                }
                col += 1;
            }
            row += 1;
        }
        proof {
            lemma_count_in_bound(self@, CellState::BlackStone, 64);
        }
        black_stone_count
    }

    /// What is left of the 64 playable cells once the black stones are taken
    /// away: the white stones, and the blank cells with them.
    pub fn count_white_stones(&self) -> (n: i8)
        ensures
            n == 64 - count(self@, CellState::BlackStone),
    {
        64 - self.count_black_stones()
    }

    /// Turns over the stone at each position of the list, first to last. A
    /// blank or an outer cell stays as it is.
    pub fn flip(&mut self, cell_pos_list: &Vec<CellPos>)
        requires
            forall|i: int|
                0 <= i < cell_pos_list@.len() ==> (#[trigger] cell_pos_list@[i]).on_grid(),
        ensures
            final(self)@ == flip_all(old(self)@, cell_pos_list@),
            final(self).search_directions == old(self).search_directions,
            old(self).wf() ==> final(self).wf(),
    {
        let mut i: usize = 0;
        while i < cell_pos_list.len()
            invariant
                i <= cell_pos_list@.len(),
                forall|i: int|
                    0 <= i < cell_pos_list@.len() ==> (#[trigger] cell_pos_list@[i]).on_grid(),
                self@ == flip_all(old(self)@, cell_pos_list@.take(i as int)),
                self.search_directions == old(self).search_directions,
            decreases cell_pos_list@.len() - i,
        {
            let pos = cell_pos_list[i];
            let ghost before = self@;
            self.cells[pos.row as usize][pos.col as usize] =
                self.cells[pos.row as usize][pos.col as usize].get_reverse_stone();
            proof {
                let next = cell_pos_list@.take(i + 1);
                assert(next.drop_last() =~= cell_pos_list@.take(i as int));
                assert(next.last() == pos);
                assert(self@ =~~= with_cell(
                    before,
                    pos.row as int,
                    pos.col as int,
                    before[pos.row as int][pos.col as int].reversed(),
                ));
            }
            i += 1;
        }
        proof {
            assert(cell_pos_list@.take(cell_pos_list@.len() as int) =~= cell_pos_list@);
            if old(self).wf() {
                lemma_flip_all_well_formed(old(self)@, cell_pos_list@);
            }
        }
    }

    /// The cells that a stone of colour `stone` placed at (`row`, `col`)
    /// captures. Along each of the eight directions the search walks over the
    /// stones of the other colour; where the walk ends on a stone of colour
    /// `stone`, the cells walked over are captured. An empty list means that
    /// the placement captures nothing. A `stone` that is no colour is refused
    /// on any board and at any position.
    pub fn find_flippable_cells(&self, row: usize, col: usize, stone: CellState) -> (r: Result<
        Vec<CellPos>,
        ReversiError,
    >)
        requires
            stone.is_stone() ==> self.wf(),
            stone.is_stone() ==> in_playable_range(row as int, col as int),
        ensures
            match r {
                Ok(cells) => stone.is_stone() && cells@ == capturable(
                    self@,
                    row as int,
                    col as int,
                    stone,
                ),
                Err(e) => !stone.is_stone() && e.is_of(ErrorKind::InvalidStoneArgument),
            },
            r is Ok ==> forall|i: int|
                0 <= i < r->Ok_0@.len() ==> (#[trigger] r->Ok_0@[i]).playable(),
    {
        match stone {
            CellState::BlankCell => {
                return Err(ReversiError::of(ErrorKind::InvalidStoneArgument));
            },
            CellState::OuterCell => {
                return Err(ReversiError::of(ErrorKind::InvalidStoneArgument));
            },
            _ => {},
        }
        let opposite_color_stone = stone.get_reverse_stone();
        let mut flip_cells: Vec<CellPos> = Vec::new();
        proof {
            lemma_directions_are_steps();
        }
        let mut d: usize = 0;
        while d < 8
            invariant
                d <= 8,
                self.wf(),
                in_playable_range(row as int, col as int),
                stone.is_stone(),
                opposite_color_stone == stone.reversed(),
                forall|d: int| 0 <= d < 8 ==> is_step(#[trigger] directions()[d]),
                flip_cells@ == capturable_upto(self@, row as int, col as int, stone, d as nat),
                forall|i: int|
                    0 <= i < flip_cells@.len() ==> (#[trigger] flip_cells@[i]).playable(),
            decreases 8 - d,
        {
            let dir = self.search_directions[d];
            assert(dir == directions()[d as int]);
            let mut opposite_color_cells: Vec<CellPos> = Vec::new();
            let mut s_row: i8 = row as i8 + dir.row;
            let mut s_col: i8 = col as i8 + dir.col;
            let ghost mut k: int = 1;
            while self.cells[s_row as usize][s_col as usize] == opposite_color_stone
                invariant
                    1 <= k <= 8,
                    self.wf(),
                    in_playable_range(row as int, col as int),
                    stone.is_stone(),
                    opposite_color_stone == stone.reversed(),
                    is_step(dir),
                    s_row == row + dir.row * k,
                    s_col == col + dir.col * k,
                    0 <= s_row <= 9,
                    0 <= s_col <= 9,
                    forall|j: int|
                        1 <= j < k ==> #[trigger] ray_cell(self@, row as int, col as int, dir, j)
                            == stone.reversed(),
                    opposite_color_cells@ == Seq::new(
                        (k - 1) as nat,
                        |j: int| ray_pos(row as int, col as int, dir, j + 1),
                    ),
                    forall|i: int|
                        0 <= i < opposite_color_cells@.len()
                            ==> (#[trigger] opposite_color_cells@[i]).playable(),
                decreases 8 - k,
            {
                proof {
                    assert(self@[s_row as int][s_col as int] == stone.reversed());
                    assert(in_playable_range(s_row as int, s_col as int));
                    assert(ray_cell(self@, row as int, col as int, dir, k) == stone.reversed());
                    assert(dir.row * (k + 1) == dir.row * k + dir.row) by (nonlinear_arith);
                    assert(dir.col * (k + 1) == dir.col * k + dir.col) by (nonlinear_arith);
                    assert(k <= 7) by (nonlinear_arith)
                        requires
                            1 <= k,
                            is_step(dir),
                            1 <= row <= 8,
                            1 <= col <= 8,
                            1 <= row + dir.row * k <= 8,
                            1 <= col + dir.col * k <= 8,
                    ;
                }
                opposite_color_cells.push(CellPos { row: s_row, col: s_col });
                s_row += dir.row;
                s_col += dir.col;
                proof {
                    assert(opposite_color_cells@ =~= Seq::new(
                        k as nat,
                        |j: int| ray_pos(row as int, col as int, dir, j + 1),
                    ));
                    k = k + 1;
                }
            }
            proof {
                assert(self@[s_row as int][s_col as int] == self.cells[s_row as int][s_col as int]);
                assert(ray_cell(self@, row as int, col as int, dir, k) != stone.reversed());
                lemma_run_found(self@, row as int, col as int, dir, stone, k - 1);
            }
            if self.cells[s_row as usize][s_col as usize] == stone {
                flip_cells.append(&mut opposite_color_cells);
            }
            d += 1;
        }
        Ok(flip_cells)
    }
}

} // verus!
