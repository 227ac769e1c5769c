use vstd::prelude::*;
use vstd::string::StringExecFns;
use crate::data::fileio::{coordinate_of, parse_coordinate};
use crate::data::pattern::{match_groups, pattern_accepted, pattern_groups};
use crate::data::text::{decimal_text, same_text, to_decimal, trim, trimmed};
use crate::domain_model::board::Board;
use crate::domain_model::cell::CellState;
use crate::domain_model::grid::Grid;
use crate::domain_model::reversi_state::{ReversiState, StateView};
use crate::domain_model::turn::Turn;
use crate::error::ErrorKind;
use crate::service::reversi_service::{
    get_result_string, put_stone, put_stone_outcome, result_text,
};

verus! {

/// What the player asks for at the prompt of the game.
#[derive(Debug, PartialEq, Eq, Structural, Clone, Copy)]
pub enum Command {
    /// `0`: leave the game.
    Quit,
    /// Two digits from 1 to 8: put a stone on that row and column.
    Place(usize, usize),
    /// Anything else: the prompt asks again.
    Invalid,
}

/// What the player answers when asked whether to store the game.
#[derive(Debug, PartialEq, Eq, Structural, Clone, Copy)]
pub enum SaveAnswer {
    /// `y`: store the game and leave.
    Save,
    /// `n`: leave without storing.
    Discard,
    /// `c`: go on with the game.
    Cancel,
    /// An answer that holds one of the three letters and is none of them:
    /// the game goes back to its prompt.
    Unclear,
    /// An answer with none of the three letters: the question is asked again.
    Retry,
}

/// How the game goes on after the player has named a cell.
#[derive(Debug)]
pub enum Reply {
    /// The stone was refused, with the reason for the player.
    Refused(String),
    /// The stone was put and the game goes on.
    Continue,
    /// The stone was put and filled the board, with the announcement of the
    /// winner.
    GameOver(String),
}

/// The pattern of an input that names a cell.
pub open spec fn cell_pattern() -> Seq<char> {
    "^([1-8])([1-8])$"@
}

/// The pattern of an answer to the question whether to store the game.
pub open spec fn answer_pattern() -> Seq<char> {
    "[ync]"@
}

/// The cell that the outcome of a match names: group 1 is the row and group
/// 2 the column.
pub open spec fn place_of_match(found: Option<Seq<Option<Seq<char>>>>) -> Option<(usize, usize)> {
    match found {
        Some(groups) => if groups.len() == 3 && groups[1] is Some && groups[2] is Some {
            match (coordinate_of(groups[1]->0), coordinate_of(groups[2]->0)) {
                (Some(row), Some(col)) => Some((row as usize, col as usize)),
                _ => None,
            }
        } else {
            None
        },
        None => None,
    }
}

/// The command that a line of input stands for, whitespace around it set
/// aside.
pub open spec fn command_of(line: Seq<char>) -> Command {
    let text = trimmed(line);
    if text == "0"@ {
        Command::Quit
    } else {
        match place_of_match(pattern_groups(cell_pattern(), text)) {
            Some(place) => Command::Place(place.0, place.1),
            None => Command::Invalid,
        }
    }
}

/// The answer that an input stands for, once it is known whether it holds
/// one of the three letters.
pub open spec fn answer_of_match(
    text: Seq<char>,
    found: Option<Seq<Option<Seq<char>>>>,
) -> SaveAnswer {
    if found is None {
        SaveAnswer::Retry
    } else if text == "y"@ {
        SaveAnswer::Save
    } else if text == "n"@ {
        SaveAnswer::Discard
    } else if text == "c"@ {
        SaveAnswer::Cancel
    } else {
        SaveAnswer::Unclear
    }
}

/// The answer that a line of input stands for, whitespace around it set
/// aside.
pub open spec fn answer_of(line: Seq<char>) -> SaveAnswer {
    answer_of_match(trimmed(line), pattern_groups(answer_pattern(), trimmed(line)))
}

/// Reads a cell out of what matching an input against the pattern gave.
pub fn place_from_match(found: &Option<Vec<Option<String>>>) -> (r: Option<(usize, usize)>)
    ensures
        r == place_of_match(found.deep_view()),
{
    let groups = match found {
        Some(groups) => groups,
        None => {
            return None;
        },
    };
    if groups.len() != 3 {
        return None;
    }
    proof {
        let deep = groups.deep_view();
        assert(deep[1] == groups@[1].deep_view());
        assert(deep[2] == groups@[2].deep_view());
    }
    let row = match &groups[1] {
        Some(token) => match parse_coordinate(token.as_str()) {
            Some(row) => row,
            None => {
                return None;
            },
        },
        None => {
            return None;
        },
    };
    let col = match &groups[2] {
        Some(token) => match parse_coordinate(token.as_str()) {
            Some(col) => col,
            None => {
                return None;
            },
        },
        None => {
            return None;
        },
    };
    Some((row as usize, col as usize))
}

/// Reads what the player asks for at the prompt of the game.
pub fn read_command(line: &str) -> (r: Command)
    ensures
        r is Quit <==> trimmed(line@) == "0"@,
        r == command_of(line@) || r is Invalid,
        pattern_accepted(cell_pattern()) ==> r == command_of(line@),
{
    let text = trim(line);
    if same_text(text, "0") {
        return Command::Quit;
    }
    let found = match match_groups("^([1-8])([1-8])$", text) {
        Ok(found) => found,
        Err(_) => {
            return Command::Invalid;
        },
    };
    match place_from_match(&found) {
        Some(place) => Command::Place(place.0, place.1),
        None => Command::Invalid,
    }
}

/// Tells the answers apart, once it is known whether the input holds one of
/// the three letters.
pub fn answer_from_match(text: &str, found: &Option<Vec<Option<String>>>) -> (r: SaveAnswer)
    ensures
        r == answer_of_match(text@, found.deep_view()),
{
    if found.is_none() {
        SaveAnswer::Retry
    } else if same_text(text, "y") {
        SaveAnswer::Save
    } else if same_text(text, "n") {
        SaveAnswer::Discard
    } else if same_text(text, "c") {
        SaveAnswer::Cancel
    } else {
        SaveAnswer::Unclear
    }
}

/// Reads what the player answers when asked whether to store the game.
pub fn read_save_answer(line: &str) -> (r: SaveAnswer)
    ensures
        r == answer_of(line@) || r is Retry,
        pattern_accepted(answer_pattern()) ==> r == answer_of(line@),
{
    let text = trim(line);
    match match_groups("[ync]", text) {
        Ok(found) => answer_from_match(text, &found),
        Err(_) => SaveAnswer::Retry,
    }
}

/// The side to move puts a stone at (`row`, `col`). A refused stone leaves
/// the game as it was; a stone that fills the board ends the game.
pub fn play_turn(state: &mut ReversiState, row: usize, col: usize) -> (r: Reply)
    requires
        old(state).wf(),
    ensures
        final(state).wf(),
        old(state)@.consistent() ==> final(state)@.consistent(),
        match r {
            Reply::Refused(message) => final(state)@ == old(state)@ && (exists|kind: ErrorKind|
                put_stone_outcome(old(state)@, row as int, col as int) == Err::<
                    StateView,
                    ErrorKind,
                >(kind) && message@ == kind.text()),
            Reply::Continue => put_stone_outcome(old(state)@, row as int, col as int) == Ok::<
                StateView,
                ErrorKind,
            >(final(state)@) && !final(state)@.gameover,
            Reply::GameOver(result) => put_stone_outcome(old(state)@, row as int, col as int)
                == Ok::<StateView, ErrorKind>(final(state)@) && final(state)@.gameover && result@
                == result_text(final(state)@.board),
        },
{
    match put_stone(state, row, col) {
        Ok(_) => {},
        Err(e) => {
            return Reply::Refused(e.message);
        },
    }
    if state.gameover {
        Reply::GameOver(get_result_string(state))
    } else {
        Reply::Continue
    }
}

/// The name under which the prompt speaks of the side to move.
pub open spec fn turn_name(turn: Turn) -> Seq<char> {
    match turn {
        Turn::Black => "黒"@,
        Turn::White => "白"@,
    }
}

pub fn get_turn_name(turn: Turn) -> (s: &'static str)
    ensures
        s@ == turn_name(turn),
{
    match turn {
        Turn::Black => "黒",
        Turn::White => "白",
    }
}

/// How a cell shows on the printed board.
pub open spec fn cell_text(cell: CellState) -> Seq<char> {
    match cell {
        CellState::OuterCell => "  "@,
        CellState::BlankCell => "  "@,
        CellState::BlackStone => "黒"@,
        CellState::WhiteStone => "白"@,
    }
}

/// The first `upto` cells of a row, each with a bar after it.
pub open spec fn row_cells(g: Grid, row: int, upto: nat) -> Seq<char>
    decreases upto,
{
    if upto == 0 {
        Seq::empty()
    } else {
        row_cells(g, row, (upto - 1) as nat) + cell_text(g[row][upto as int]) + "|"@
    }
}

/// A row of the printed board: its number, then its eight cells.
pub open spec fn row_text(g: Grid, row: int) -> Seq<char> {
    decimal_text(row as nat) + " |"@ + row_cells(g, row, 8)
}

/// The first `upto` rows of the printed board, each with a rule under it.
pub open spec fn board_rows(g: Grid, upto: nat) -> Seq<Seq<char>>
    decreases upto,
{
    if upto == 0 {
        Seq::empty()
    } else {
        board_rows(g, (upto - 1) as nat).push(row_text(g, upto as int)).push(
            "  +--+--+--+--+--+--+--+--+"@,
        )
    }
}

/// The printed board, line by line: the numbers of the columns, a rule, the
/// eight rows, and the mark of the rows.
pub open spec fn board_text(g: Grid) -> Seq<Seq<char>> {
    seq!["   1  2  3  4  5  6  7  8(列)"@, "  +-----------------------+"@] + board_rows(g, 8)
        + seq!["(段)"@]
}

pub fn get_cell_text(cell: CellState) -> (s: &'static str)
    ensures
        s@ == cell_text(cell),
{
    match cell {
        CellState::OuterCell => "  ",
        CellState::BlankCell => "  ",
        CellState::BlackStone => "黒",
        CellState::WhiteStone => "白",
    }
}

/// The lines that show the board.
pub fn board_lines(board: &Board) -> (lines: Vec<String>)
    ensures
        lines.deep_view() == board_text(board@),
{
    let mut lines: Vec<String> = Vec::new();
    lines.push(String::from_str("   1  2  3  4  5  6  7  8(列)"));
    lines.push(String::from_str("  +-----------------------+"));
    let ghost head = lines.deep_view();
    proof {
        assert(head =~= seq!["   1  2  3  4  5  6  7  8(列)"@, "  +-----------------------+"@]);
    }
    let mut row: usize = 1;
    while row <= 8
        invariant
            1 <= row <= 9,
            head == seq!["   1  2  3  4  5  6  7  8(列)"@, "  +-----------------------+"@],
            lines.deep_view() == head + board_rows(board@, (row - 1) as nat),
        decreases 9 - row,
    {
        let mut line = to_decimal(row);
        line.append(" |");
        let mut col: usize = 1;
        while col <= 8
            invariant
                1 <= row <= 8,
                1 <= col <= 9,
                line@ == decimal_text(row as nat) + " |"@ + row_cells(
                    board@,
                    row as int,
                    (col - 1) as nat,
                ),
            decreases 9 - col,
        {
            let ghost before = line@;
            line.append(get_cell_text(board.cells[row][col]));
            line.append("|");
            proof {
                assert(board@[row as int][col as int] == board.cells[row as int][col as int]);
                assert(line@ =~= decimal_text(row as nat) + " |"@ + row_cells(
                    board@,
                    row as int,
                    col as nat,
                ));
            }
            col += 1;
        }
        let ghost shown = lines.deep_view();
        let ghost text = line@;
        lines.push(line);
        lines.push(String::from_str("  +--+--+--+--+--+--+--+--+"));
        proof {
            assert(lines.deep_view() =~= shown.push(text).push("  +--+--+--+--+--+--+--+--+"@));
            assert(lines.deep_view() =~= head + board_rows(board@, row as nat));
        }
        row += 1;
    }
    let ghost shown = lines.deep_view();
    lines.push(String::from_str("(段)"));
    proof {
        assert(lines.deep_view() =~= shown.push("(段)"@));
        assert(lines.deep_view() =~= board_text(board@));
    }
    lines
}

} // verus!
