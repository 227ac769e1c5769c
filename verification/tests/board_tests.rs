use reversi::domain_model::board::Board;
use reversi::domain_model::cell::{CellState, ICellState};
use reversi::domain_model::cell_pos::CellPos;
use reversi::error::ErrorKind;

fn interior(board: &Board) -> Vec<CellState> {
    let mut cells = Vec::new();
    for row in 1..=8 {
        for col in 1..=8 {
            cells.push(board.get_cell(row, col).unwrap());
        }
    }
    cells
}

fn count_of(board: &Board, state: CellState) -> usize {
    interior(board).into_iter().filter(|c| *c == state).count()
}

#[test]
fn new_board_has_the_four_stones_in_the_middle() {
    let board = Board::new();
    for row in 1..=8usize {
        for col in 1..=8usize {
            let expected = match (row, col) {
                (4, 4) | (5, 5) => CellState::WhiteStone,
                (4, 5) | (5, 4) => CellState::BlackStone,
                _ => CellState::BlankCell,
            };
            assert_eq!(board.get_cell(row, col), Some(expected), "cell ({}, {})", row, col);
        }
    }
}

#[test]
fn new_board_is_ringed_by_outer_cells() {
    let board = Board::new();
    for i in 0..=9usize {
        assert_eq!(board.get_cell(0, i), Some(CellState::OuterCell));
        assert_eq!(board.get_cell(9, i), Some(CellState::OuterCell));
        assert_eq!(board.get_cell(i, 0), Some(CellState::OuterCell));
        assert_eq!(board.get_cell(i, 9), Some(CellState::OuterCell));
    }
}

#[test]
fn new_board_searches_eight_directions_in_order() {
    let board = Board::new();
    let steps: Vec<(i8, i8)> = board.search_directions.iter().map(|d| (d.row, d.col)).collect();
    assert_eq!(
        steps,
        vec![(0, 1), (1, 1), (1, 0), (1, -1), (0, -1), (-1, -1), (-1, 0), (-1, 1)]
    );
}

#[test]
fn is_in_range_is_one_to_eight() {
    let board = Board::new();
    assert!(board.is_in_range(1, 1));
    assert!(board.is_in_range(8, 8));
    assert!(board.is_in_range(1, 8));
    assert!(!board.is_in_range(0, 1));
    assert!(!board.is_in_range(1, 0));
    assert!(!board.is_in_range(9, 8));
    assert!(!board.is_in_range(8, 9));
    assert!(!board.is_in_range(usize::MAX, 4));
}

#[test]
fn is_in_range_with_outercell_is_zero_to_nine() {
    let board = Board::new();
    assert!(board.is_in_range_with_outercell(0, 0));
    assert!(board.is_in_range_with_outercell(9, 9));
    assert!(board.is_in_range_with_outercell(0, 9));
    assert!(!board.is_in_range_with_outercell(10, 0));
    assert!(!board.is_in_range_with_outercell(0, 10));
    assert!(!board.is_in_range_with_outercell(usize::MAX, usize::MAX));
}

#[test]
fn get_cell_outside_the_grid_is_none() {
    let board = Board::new();
    assert_eq!(board.get_cell(10, 4), None);
    assert_eq!(board.get_cell(4, 10), None);
    assert_eq!(board.get_cell(0, 0), Some(CellState::OuterCell));
    assert_eq!(board.get_cell(4, 4), Some(CellState::WhiteStone));
}

#[test]
fn set_cell_writes_a_playable_cell_only() {
    let mut board = Board::new();
    assert!(board.set_cell(1, 1, CellState::BlackStone).is_ok());
    assert_eq!(board.get_cell(1, 1), Some(CellState::BlackStone));
    assert_eq!(board.get_cell(1, 2), Some(CellState::BlankCell));
    assert!(board.set_cell(8, 8, CellState::WhiteStone).is_ok());
    assert_eq!(board.get_cell(8, 8), Some(CellState::WhiteStone));
}

#[test]
fn set_cell_refuses_the_ring_and_beyond() {
    let mut board = Board::new();
    for (row, col) in [(0usize, 0usize), (0, 4), (4, 0), (9, 4), (4, 9), (10, 10), (100, 1)] {
        let err = board.set_cell(row, col, CellState::BlackStone).unwrap_err();
        assert_eq!(err.kind, ErrorKind::OutOfRange);
        assert_eq!(err.message, "盤面の範囲外です");
    }
    assert_eq!(interior(&board), interior(&Board::new()));
    assert_eq!(board.get_cell(0, 4), Some(CellState::OuterCell));
}

#[test]
fn has_blank_cell_until_the_board_is_full() {
    let mut board = Board::new();
    assert!(board.has_blank_cell());
    for row in 1..=8 {
        for col in 1..=8 {
            board.set_cell(row, col, CellState::BlackStone).unwrap();
        }
    }
    assert!(!board.has_blank_cell());
    board.set_cell(8, 8, CellState::BlankCell).unwrap();
    assert!(board.has_blank_cell());
}

#[test]
fn counts_on_a_new_board() {
    let board = Board::new();
    assert_eq!(board.count_black_stones(), 2);
    assert_eq!(board.count_white_stones(), 62);
}

#[test]
fn white_count_is_what_black_leaves_of_64() {
    let mut board = Board::new();
    board.set_cell(1, 1, CellState::BlackStone).unwrap();
    board.set_cell(1, 2, CellState::BlackStone).unwrap();
    board.set_cell(1, 3, CellState::WhiteStone).unwrap();
    assert_eq!(board.count_black_stones(), 4);
    assert_eq!(board.count_white_stones(), 60);
    for row in 1..=8 {
        for col in 1..=8 {
            board.set_cell(row, col, CellState::BlackStone).unwrap();
        }
    }
    assert_eq!(board.count_black_stones(), 64);
    assert_eq!(board.count_white_stones(), 0);
}

#[test]
fn the_three_counts_add_up_to_64() {
    let mut board = Board::new();
    board.set_cell(2, 7, CellState::WhiteStone).unwrap();
    board.flip(&vec![CellPos { row: 4, col: 4 }, CellPos { row: 2, col: 7 }]);
    let black = count_of(&board, CellState::BlackStone);
    let white = count_of(&board, CellState::WhiteStone);
    let blank = count_of(&board, CellState::BlankCell);
    assert_eq!(black + white + blank, 64);
    assert_eq!(black, 4);
    assert_eq!(white, 1);
    assert_eq!(board.count_black_stones() as usize, black);
}

#[test]
fn reverse_stone_swaps_the_colours_only() {
    assert_eq!(CellState::BlackStone.get_reverse_stone(), CellState::WhiteStone);
    assert_eq!(CellState::WhiteStone.get_reverse_stone(), CellState::BlackStone);
    assert_eq!(CellState::BlankCell.get_reverse_stone(), CellState::BlankCell);
    assert_eq!(CellState::OuterCell.get_reverse_stone(), CellState::OuterCell);
}

#[test]
fn flip_turns_stones_over_and_leaves_the_rest() {
    let mut board = Board::new();
    board.flip(&vec![
        CellPos { row: 4, col: 4 },
        CellPos { row: 4, col: 5 },
        CellPos { row: 1, col: 1 },
        CellPos { row: 0, col: 0 },
    ]);
    assert_eq!(board.get_cell(4, 4), Some(CellState::BlackStone));
    assert_eq!(board.get_cell(4, 5), Some(CellState::WhiteStone));
    assert_eq!(board.get_cell(1, 1), Some(CellState::BlankCell));
    assert_eq!(board.get_cell(0, 0), Some(CellState::OuterCell));
    assert_eq!(board.get_cell(5, 4), Some(CellState::BlackStone));
    assert_eq!(board.get_cell(5, 5), Some(CellState::WhiteStone));
}

#[test]
fn flip_twice_gives_the_board_back() {
    let mut board = Board::new();
    let cells = vec![CellPos { row: 4, col: 4 }, CellPos { row: 5, col: 4 }, CellPos { row: 4, col: 4 }];
    board.flip(&cells);
    assert_eq!(board.get_cell(4, 4), Some(CellState::WhiteStone));
    assert_eq!(board.get_cell(5, 4), Some(CellState::WhiteStone));
    board.flip(&cells);
    assert_eq!(interior(&board), interior(&Board::new()));
}

#[test]
fn flip_of_nothing_changes_nothing() {
    let mut board = Board::new();
    board.flip(&Vec::new());
    assert_eq!(interior(&board), interior(&Board::new()));
}

#[test]
fn find_flippable_cells_on_the_opening() {
    let board = Board::new();
    let found = board.find_flippable_cells(3, 4, CellState::BlackStone).unwrap();
    assert_eq!(found, vec![CellPos { row: 4, col: 4 }]);
    let found = board.find_flippable_cells(4, 3, CellState::BlackStone).unwrap();
    assert_eq!(found, vec![CellPos { row: 4, col: 4 }]);
    let found = board.find_flippable_cells(3, 5, CellState::WhiteStone).unwrap();
    assert_eq!(found, vec![CellPos { row: 4, col: 5 }]);
    let found = board.find_flippable_cells(6, 4, CellState::WhiteStone).unwrap();
    assert_eq!(found, vec![CellPos { row: 5, col: 4 }]);
}

#[test]
fn find_flippable_cells_finds_nothing_without_a_closed_run() {
    let board = Board::new();
    assert_eq!(board.find_flippable_cells(1, 1, CellState::BlackStone).unwrap(), vec![]);
    assert_eq!(board.find_flippable_cells(3, 4, CellState::WhiteStone).unwrap(), vec![]);
    assert_eq!(board.find_flippable_cells(3, 3, CellState::BlackStone).unwrap(), vec![]);
    assert_eq!(board.find_flippable_cells(8, 8, CellState::WhiteStone).unwrap(), vec![]);
}

#[test]
fn find_flippable_cells_rejects_empty_stone() {
    let board = Board::new();
    let err = board.find_flippable_cells(3, 4, CellState::BlankCell).unwrap_err();
    assert_eq!(err.kind, ErrorKind::InvalidStoneArgument);
    let err = board.find_flippable_cells(3, 4, CellState::OuterCell).unwrap_err();
    assert_eq!(err.kind, ErrorKind::InvalidStoneArgument);
    assert_eq!(err.message, "BlankCell, OuterCellは指定できません");
}

#[test]
fn find_flippable_cells_rejects_empty_stone_at_any_position() {
    let board = Board::new();
    for (row, col) in [(0usize, 0usize), (9, 9), (0, 4), (10, 3), (200, 200), (usize::MAX, 1)] {
        for stone in [CellState::BlankCell, CellState::OuterCell] {
            let err = board.find_flippable_cells(row, col, stone).unwrap_err();
            assert_eq!(err.kind, ErrorKind::InvalidStoneArgument, "cell ({}, {})", row, col);
        }
    }
}

#[test]
fn find_flippable_cells_rejects_empty_stone_on_a_damaged_board() {
    let mut board = Board::new();
    board.cells[0][0] = CellState::WhiteStone;
    board.cells[4][4] = CellState::OuterCell;
    let err = board.find_flippable_cells(1, 1, CellState::BlankCell).unwrap_err();
    assert_eq!(err.kind, ErrorKind::InvalidStoneArgument);
    let err = board.find_flippable_cells(4, 4, CellState::OuterCell).unwrap_err();
    assert_eq!(err.kind, ErrorKind::InvalidStoneArgument);
}

#[test]
fn find_flippable_cells_walks_the_directions_in_order() {
    let mut board = Board::new();
    for row in 1..=8 {
        for col in 1..=8 {
            board.set_cell(row, col, CellState::BlankCell).unwrap();
        }
    }
    // White all around (4, 4), black behind each white stone.
    for (dr, dc) in [(0i32, 1i32), (1, 1), (1, 0), (1, -1), (0, -1), (-1, -1), (-1, 0), (-1, 1)] {
        board.set_cell((4 + dr) as usize, (4 + dc) as usize, CellState::WhiteStone).unwrap();
        board.set_cell((4 + 2 * dr) as usize, (4 + 2 * dc) as usize, CellState::BlackStone).unwrap();
    }
    let found = board.find_flippable_cells(4, 4, CellState::BlackStone).unwrap();
    assert_eq!(
        found,
        vec![
            CellPos { row: 4, col: 5 },
            CellPos { row: 5, col: 5 },
            CellPos { row: 5, col: 4 },
            CellPos { row: 5, col: 3 },
            CellPos { row: 4, col: 3 },
            CellPos { row: 3, col: 3 },
            CellPos { row: 3, col: 4 },
            CellPos { row: 3, col: 5 },
        ]
    );
    assert_eq!(board.find_flippable_cells(4, 4, CellState::WhiteStone).unwrap(), vec![]);
}

#[test]
fn find_flippable_cells_takes_a_long_run_nearest_first() {
    let mut board = Board::new();
    for row in 1..=8 {
        for col in 1..=8 {
            board.set_cell(row, col, CellState::BlankCell).unwrap();
        }
    }
    for col in 2..=7 {
        board.set_cell(1, col, CellState::WhiteStone).unwrap();
    }
    board.set_cell(1, 8, CellState::BlackStone).unwrap();
    let found = board.find_flippable_cells(1, 1, CellState::BlackStone).unwrap();
    let expected: Vec<CellPos> = (2..=7).map(|col| CellPos { row: 1, col }).collect();
    assert_eq!(found, expected);
}

#[test]
fn find_flippable_cells_stops_at_the_ring_and_at_a_blank() {
    let mut board = Board::new();
    for row in 1..=8 {
        for col in 1..=8 {
            board.set_cell(row, col, CellState::BlankCell).unwrap();
        }
    }
    // A run that reaches the ring captures nothing.
    for col in 2..=8 {
        board.set_cell(1, col, CellState::WhiteStone).unwrap();
    }
    assert_eq!(board.find_flippable_cells(1, 1, CellState::BlackStone).unwrap(), vec![]);
    // A run that ends on a blank captures nothing.
    board.set_cell(1, 8, CellState::BlankCell).unwrap();
    assert_eq!(board.find_flippable_cells(1, 1, CellState::BlackStone).unwrap(), vec![]);
    // A neighbour of the mover's own colour captures nothing.
    board.set_cell(2, 1, CellState::BlackStone).unwrap();
    assert_eq!(board.find_flippable_cells(1, 1, CellState::BlackStone).unwrap(), vec![]);
}
