use reversi::domain_model::cell::CellState;
use reversi::domain_model::cell_pos::CellPos;
use reversi::domain_model::reversi_state::ReversiState;
use reversi::domain_model::turn::Turn;
use reversi::error::{ErrorKind, ReversiError};
use reversi::service::reversi_service::{
    get_history_size, get_result_string, is_game_over, pass, put_stone, redo, switch_turn, undo,
};

fn interior(state: &ReversiState) -> Vec<CellState> {
    let mut cells = Vec::new();
    for row in 1..=8 {
        for col in 1..=8 {
            cells.push(state.board.get_cell(row, col).unwrap());
        }
    }
    cells
}

fn count_of(state: &ReversiState, cell: CellState) -> usize {
    interior(state).into_iter().filter(|c| *c == cell).count()
}

fn moves_of(state: &ReversiState) -> Vec<(Turn, i8, i8, Vec<(i8, i8)>)> {
    state
        .undo_buffer
        .iter()
        .map(|m| {
            (
                m.turn,
                m.put_pos.row,
                m.put_pos.col,
                m.flipped_pos_list.iter().map(|p| (p.row, p.col)).collect(),
            )
        })
        .collect()
}

/// A game with every cell black but (8, 8), which is blank, and (8, 7), which
/// is white: Black to move fills the board at (8, 8).
fn nearly_full() -> ReversiState {
    let mut state = ReversiState::new();
    for row in 1..=8 {
        for col in 1..=8 {
            state.board.set_cell(row, col, CellState::BlackStone).unwrap();
        }
    }
    state.board.set_cell(8, 7, CellState::WhiteStone).unwrap();
    state.board.set_cell(8, 8, CellState::BlankCell).unwrap();
    state
}

#[test]
fn new_game_starts_with_black_and_no_history() {
    let state = ReversiState::new();
    assert_eq!(state.turn, Turn::Black);
    assert!(!state.gameover);
    assert!(state.undo_buffer.is_empty());
    assert!(state.redo_buffer.is_empty());
    assert_eq!(get_history_size(&state), 0);
    assert_eq!(state.board.count_black_stones(), 2);
}

#[test]
fn black_opens_at_3_4() {
    let mut state = ReversiState::new();
    assert!(put_stone(&mut state, 3, 4).is_ok());
    for row in 1..=8usize {
        for col in 1..=8usize {
            let expected = match (row, col) {
                (3, 4) | (4, 4) | (4, 5) | (5, 4) => CellState::BlackStone,
                (5, 5) => CellState::WhiteStone,
                _ => CellState::BlankCell,
            };
            assert_eq!(state.board.get_cell(row, col), Some(expected), "cell ({}, {})", row, col);
        }
    }
    assert_eq!(state.turn, Turn::White);
    assert_eq!(get_history_size(&state), 1);
    assert!(!state.gameover);
    assert_eq!(moves_of(&state), vec![(Turn::Black, 3, 4, vec![(4, 4)])]);
    assert!(state.redo_buffer.is_empty());
}

#[test]
fn put_stone_out_of_range() {
    let mut state = ReversiState::new();
    for (row, col) in [(0usize, 4usize), (4, 0), (9, 4), (4, 9), (0, 0), (300, 300)] {
        let err = put_stone(&mut state, row, col).unwrap_err();
        assert_eq!(err.kind, ErrorKind::OutOfRange);
        assert_eq!(err.message, "盤面の範囲外です");
    }
    assert_eq!(interior(&state), interior(&ReversiState::new()));
    assert_eq!(state.turn, Turn::Black);
    assert_eq!(get_history_size(&state), 0);
}

#[test]
fn put_stone_on_an_occupied_cell() {
    let mut state = ReversiState::new();
    for (row, col) in [(4usize, 4usize), (4, 5), (5, 4), (5, 5)] {
        let err = put_stone(&mut state, row, col).unwrap_err();
        assert_eq!(err.kind, ErrorKind::CellOccupied);
        assert_eq!(err.message, "既に石が置かれています");
    }
    assert_eq!(interior(&state), interior(&ReversiState::new()));
    assert_eq!(state.turn, Turn::Black);
    assert_eq!(get_history_size(&state), 0);
}

#[test]
fn put_stone_that_captures_nothing() {
    let mut state = ReversiState::new();
    for (row, col) in [(1usize, 1usize), (3, 3), (3, 5), (6, 4), (8, 8), (4, 6)] {
        let err = put_stone(&mut state, row, col).unwrap_err();
        assert_eq!(err.kind, ErrorKind::NoCapture, "cell ({}, {})", row, col);
        assert_eq!(err.message, "反転できる石がありません");
    }
    assert_eq!(interior(&state), interior(&ReversiState::new()));
    assert_eq!(state.turn, Turn::Black);
    assert_eq!(get_history_size(&state), 0);
    assert!(state.redo_buffer.is_empty());
}

#[test]
fn a_refused_move_keeps_the_redo_stack() {
    let mut state = ReversiState::new();
    put_stone(&mut state, 3, 4).unwrap();
    undo(&mut state).unwrap();
    assert_eq!(state.redo_buffer.len(), 1);
    assert!(put_stone(&mut state, 1, 1).is_err());
    assert_eq!(state.redo_buffer.len(), 1);
    assert!(redo(&mut state).is_ok());
}

#[test]
fn the_sides_alternate() {
    let mut state = ReversiState::new();
    put_stone(&mut state, 3, 4).unwrap();
    assert_eq!(state.turn, Turn::White);
    put_stone(&mut state, 3, 3).unwrap();
    assert_eq!(state.turn, Turn::Black);
    assert_eq!(state.board.get_cell(3, 3), Some(CellState::WhiteStone));
    assert_eq!(state.board.get_cell(4, 4), Some(CellState::WhiteStone));
    put_stone(&mut state, 4, 3).unwrap();
    assert_eq!(state.turn, Turn::White);
    assert_eq!(
        moves_of(&state),
        vec![
            (Turn::Black, 3, 4, vec![(4, 4)]),
            (Turn::White, 3, 3, vec![(4, 4)]),
            (Turn::Black, 4, 3, vec![(4, 4)]),
        ]
    );
    assert_eq!(get_history_size(&state), 3);
}

#[test]
fn put_then_undo_restores_the_game() {
    let mut state = ReversiState::new();
    put_stone(&mut state, 3, 4).unwrap();
    let before = interior(&state);
    let black = state.board.count_black_stones();
    let white = state.board.count_white_stones();
    let history = moves_of(&state);
    assert_eq!(state.turn, Turn::White);

    put_stone(&mut state, 3, 3).unwrap();
    assert_ne!(interior(&state), before);
    undo(&mut state).unwrap();

    assert_eq!(interior(&state), before);
    assert_eq!(state.turn, Turn::White);
    assert_eq!(state.board.count_black_stones(), black);
    assert_eq!(state.board.count_white_stones(), white);
    assert_eq!(moves_of(&state), history);
    assert_eq!(state.redo_buffer.len(), 1);
}

#[test]
fn redo_after_a_move_has_no_history() {
    let mut state = ReversiState::new();
    put_stone(&mut state, 3, 4).unwrap();
    let err = redo(&mut state).unwrap_err();
    assert_eq!(err.kind, ErrorKind::NoHistory);
    pass(&mut state);
    assert_eq!(redo(&mut state).unwrap_err().kind, ErrorKind::NoHistory);
    pass(&mut state);
    undo(&mut state).unwrap();
    assert!(redo(&mut state).is_ok());
    assert_eq!(redo(&mut state).unwrap_err().kind, ErrorKind::NoHistory);
}

#[test]
fn a_new_move_drops_what_could_be_redone() {
    let mut state = ReversiState::new();
    put_stone(&mut state, 3, 4).unwrap();
    put_stone(&mut state, 3, 3).unwrap();
    undo(&mut state).unwrap();
    undo(&mut state).unwrap();
    assert_eq!(state.redo_buffer.len(), 2);
    put_stone(&mut state, 4, 3).unwrap();
    assert!(state.redo_buffer.is_empty());
    assert_eq!(redo(&mut state).unwrap_err().kind, ErrorKind::NoHistory);
    assert_eq!(moves_of(&state), vec![(Turn::Black, 4, 3, vec![(4, 4)])]);
}

#[test]
fn undo_without_history() {
    let mut state = ReversiState::new();
    let err = undo(&mut state).unwrap_err();
    assert_eq!(err.kind, ErrorKind::NoHistory);
    assert_eq!(err.message, "履歴がありません");
    let err = state.undo().unwrap_err();
    assert_eq!(err.kind, ErrorKind::NoHistory);
    assert_eq!(interior(&state), interior(&ReversiState::new()));
    assert_eq!(state.turn, Turn::Black);
}

#[test]
fn redo_without_history() {
    let mut state = ReversiState::new();
    let err = redo(&mut state).unwrap_err();
    assert_eq!(err.kind, ErrorKind::NoHistory);
    assert_eq!(err.message, "redoバッファが空です");
    let err = state.redo().unwrap_err();
    assert_eq!(err.kind, ErrorKind::NoHistory);
    assert_eq!(err.message, "redoバッファが空です");
    let err = ReversiError::redo_empty();
    assert_eq!(err.kind, ErrorKind::NoHistory);
    assert_eq!(err.message, "redoバッファが空です");
    assert_eq!(interior(&state), interior(&ReversiState::new()));
    assert_eq!(state.turn, Turn::Black);
}

#[test]
fn undo_then_redo_gives_the_game_back() {
    let mut state = ReversiState::new();
    put_stone(&mut state, 3, 4).unwrap();
    put_stone(&mut state, 3, 3).unwrap();
    let before = interior(&state);
    let history = moves_of(&state);
    assert_eq!(state.turn, Turn::Black);

    undo(&mut state).unwrap();
    assert_eq!(state.turn, Turn::White);
    assert_eq!(state.board.get_cell(3, 3), Some(CellState::BlankCell));
    assert_eq!(state.board.get_cell(4, 4), Some(CellState::BlackStone));
    assert_eq!(get_history_size(&state), 1);
    redo(&mut state).unwrap();

    assert_eq!(interior(&state), before);
    assert_eq!(state.turn, Turn::Black);
    assert_eq!(moves_of(&state), history);
    assert!(state.redo_buffer.is_empty());
}

#[test]
fn redo_then_undo_gives_the_game_back() {
    let mut state = ReversiState::new();
    put_stone(&mut state, 3, 4).unwrap();
    put_stone(&mut state, 3, 3).unwrap();
    undo(&mut state).unwrap();
    let before = interior(&state);
    let history = moves_of(&state);
    assert_eq!(state.turn, Turn::White);
    assert_eq!(state.redo_buffer.len(), 1);

    redo(&mut state).unwrap();
    assert_eq!(state.turn, Turn::Black);
    assert_eq!(state.board.get_cell(3, 3), Some(CellState::WhiteStone));
    undo(&mut state).unwrap();

    assert_eq!(interior(&state), before);
    assert_eq!(state.turn, Turn::White);
    assert_eq!(moves_of(&state), history);
    assert_eq!(state.redo_buffer.len(), 1);
    assert_eq!(state.redo_buffer[0].put_pos, CellPos { row: 3, col: 3 });
}

#[test]
fn undo_then_redo_after_a_pass_changes_the_side_only() {
    let mut state = ReversiState::new();
    put_stone(&mut state, 3, 4).unwrap();
    pass(&mut state);
    assert_eq!(state.turn, Turn::Black);
    let before = interior(&state);
    undo(&mut state).unwrap();
    redo(&mut state).unwrap();
    assert_eq!(interior(&state), before);
    assert_eq!(state.turn, Turn::White);
    assert_eq!(get_history_size(&state), 1);
}

#[test]
fn undo_and_redo_walk_the_whole_history() {
    let mut state = ReversiState::new();
    let mut boards = vec![interior(&state)];
    for (row, col) in [(3usize, 4usize), (3, 3), (4, 3), (5, 3)] {
        put_stone(&mut state, row, col).unwrap();
        boards.push(interior(&state));
    }
    for step in (0..4).rev() {
        undo(&mut state).unwrap();
        assert_eq!(interior(&state), boards[step]);
        assert_eq!(get_history_size(&state), step);
    }
    assert_eq!(state.turn, Turn::Black);
    for step in 1..=4 {
        redo(&mut state).unwrap();
        assert_eq!(interior(&state), boards[step]);
        assert_eq!(get_history_size(&state), step);
    }
    assert_eq!(state.turn, Turn::Black);
}

#[test]
fn the_counts_add_up_after_every_step() {
    let mut state = ReversiState::new();
    let check = |state: &ReversiState| {
        let black = count_of(state, CellState::BlackStone);
        let white = count_of(state, CellState::WhiteStone);
        let blank = count_of(state, CellState::BlankCell);
        assert_eq!(black + white + blank, 64);
        assert_eq!(state.board.count_black_stones() as usize, black);
        assert_eq!(state.board.count_white_stones() as usize, white + blank);
    };
    check(&state);
    put_stone(&mut state, 3, 4).unwrap();
    check(&state);
    assert_eq!(state.board.count_black_stones(), 4);
    let _ = put_stone(&mut state, 1, 1);
    check(&state);
    put_stone(&mut state, 3, 3).unwrap();
    check(&state);
    assert_eq!(state.board.count_black_stones(), 3);
    undo(&mut state).unwrap();
    check(&state);
    redo(&mut state).unwrap();
    check(&state);
    pass(&mut state);
    check(&state);
}

#[test]
fn pass_and_switch_turn_change_the_side_only() {
    let mut state = ReversiState::new();
    put_stone(&mut state, 3, 4).unwrap();
    let before = interior(&state);
    pass(&mut state);
    assert_eq!(state.turn, Turn::Black);
    switch_turn(&mut state);
    assert_eq!(state.turn, Turn::White);
    pass(&mut state);
    assert_eq!(state.turn, Turn::Black);
    assert_eq!(interior(&state), before);
    assert_eq!(get_history_size(&state), 1);
    assert!(!state.gameover);
}

#[test]
fn the_same_side_moves_again_after_a_pass() {
    let mut state = ReversiState::new();
    put_stone(&mut state, 3, 4).unwrap();
    pass(&mut state);
    put_stone(&mut state, 6, 5).unwrap();
    assert_eq!(
        moves_of(&state),
        vec![(Turn::Black, 3, 4, vec![(4, 4)]), (Turn::Black, 6, 5, vec![(5, 5)])]
    );
    assert_eq!(state.turn, Turn::White);
    assert_eq!(state.board.count_black_stones(), 6);
}

#[test]
fn filling_the_board_ends_the_game() {
    let mut state = nearly_full();
    assert!(!is_game_over(&state));
    assert!(put_stone(&mut state, 8, 8).is_ok());
    assert!(state.gameover);
    assert!(is_game_over(&state));
    assert_eq!(state.turn, Turn::Black);
    assert!(!state.board.has_blank_cell());
    assert_eq!(state.board.count_black_stones(), 64);
    assert_eq!(moves_of(&state), vec![(Turn::Black, 8, 8, vec![(8, 7)])]);
    assert_eq!(get_result_string(&state), "黒の勝ち");
}

#[test]
fn undo_after_the_end_keeps_the_game_over() {
    let mut state = nearly_full();
    put_stone(&mut state, 8, 8).unwrap();
    undo(&mut state).unwrap();
    assert!(state.gameover);
    assert_eq!(state.turn, Turn::Black);
    assert_eq!(interior(&state), interior(&nearly_full()));
    redo(&mut state).unwrap();
    assert_eq!(state.turn, Turn::White);
    assert!(!state.board.has_blank_cell());
}

#[test]
fn result_string_names_white_unless_black_has_more_than_32() {
    let mut state = ReversiState::new();
    assert_eq!(get_result_string(&state), "白の勝ち");
    for row in 1..=4 {
        for col in 1..=8 {
            state.board.set_cell(row, col, CellState::BlackStone).unwrap();
        }
    }
    for row in 5..=8 {
        for col in 1..=8 {
            state.board.set_cell(row, col, CellState::WhiteStone).unwrap();
        }
    }
    assert_eq!(state.board.count_black_stones(), 32);
    assert_eq!(get_result_string(&state), "白の勝ち");
    state.board.set_cell(5, 1, CellState::BlackStone).unwrap();
    assert_eq!(state.board.count_black_stones(), 33);
    assert_eq!(get_result_string(&state), "黒の勝ち");
}

#[test]
fn register_move_records_the_side_to_move() {
    let mut state = ReversiState::new();
    state.register_move(3, 4, vec![CellPos { row: 4, col: 4 }]);
    assert_eq!(moves_of(&state), vec![(Turn::Black, 3, 4, vec![(4, 4)])]);
    assert_eq!(state.turn, Turn::Black);
    assert_eq!(interior(&state), interior(&ReversiState::new()));
    state.turn = Turn::White;
    state.register_move(6, 5, Vec::new());
    assert_eq!(get_history_size(&state), 2);
    assert_eq!(moves_of(&state)[1], (Turn::White, 6, 5, vec![]));
}

#[test]
fn history_size_counts_the_moves_that_can_be_undone() {
    let mut state = ReversiState::new();
    put_stone(&mut state, 3, 4).unwrap();
    put_stone(&mut state, 3, 3).unwrap();
    assert_eq!(get_history_size(&state), 2);
    undo(&mut state).unwrap();
    assert_eq!(get_history_size(&state), 1);
    let _ = put_stone(&mut state, 1, 1);
    assert_eq!(get_history_size(&state), 1);
}

#[test]
fn errors_carry_their_kind_and_message() {
    let e = ReversiError::new(ErrorKind::NoCapture, "nothing to flip");
    assert_eq!(e.kind, ErrorKind::NoCapture);
    assert_eq!(e.message, "nothing to flip");
    let cases = [
        (ErrorKind::OutOfRange, "盤面の範囲外です"),
        (ErrorKind::CellOccupied, "既に石が置かれています"),
        (ErrorKind::NoCapture, "反転できる石がありません"),
        (ErrorKind::NoHistory, "履歴がありません"),
        (ErrorKind::InvalidStoneArgument, "BlankCell, OuterCellは指定できません"),
        (ErrorKind::PersistedDataCorrupt, "読み取りに失敗しました"),
    ];
    for (kind, text) in cases {
        let e = ReversiError::of(kind);
        assert_eq!(e.kind, kind);
        assert_eq!(e.message, text);
        assert_eq!(kind.describe(), text);
    }
}

#[test]
fn turn_knows_its_stone_and_its_opponent() {
    assert_eq!(Turn::Black.get_stone(), CellState::BlackStone);
    assert_eq!(Turn::White.get_stone(), CellState::WhiteStone);
    assert_eq!(Turn::Black.get_opposite(), Turn::White);
    assert_eq!(Turn::White.get_opposite(), Turn::Black);
}
