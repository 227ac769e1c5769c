use vstd::prelude::*;
use vstd::string::{StrSliceExecFns, StringExecFns};
use crate::data::pattern::{match_groups, pattern_accepted, pattern_groups};
use crate::data::text::{
    decimal_text, decimal_value, digit_value, parse_decimal, same_text, to_decimal, trim, trimmed,
};
use crate::domain_model::cell_pos::CellPos;
use crate::domain_model::move_record::{Move, MoveView, move_views};
use crate::domain_model::reversi_state::{ReversiState, StateView};
use crate::domain_model::turn::Turn;
use crate::error::{ErrorKind, ReversiError};

verus! {

/// The word that stands for a side in a stored game.
pub open spec fn turn_text(turn: Turn) -> Seq<char> {
    match turn {
        Turn::Black => "BLACK"@,
        Turn::White => "WHITE"@,
    }
}

/// The line that stores a move: the side, the row and the column, with one
/// space between them.
pub open spec fn move_line(m: MoveView) -> Seq<char> {
    turn_text(m.turn) + " "@ + decimal_text(m.put_pos.row as nat) + " "@ + decimal_text(
        m.put_pos.col as nat,
    )
}

/// A game as stored: the number of moves on the undo stack, then one line for
/// each move in the order in which the moves were played, those of the undo
/// stack first, those of the redo stack after them.
pub open spec fn history_text(s: StateView) -> Seq<Seq<char>> {
    seq![decimal_text(s.undo.len())] + s.undo.map_values(|m: MoveView| move_line(m))
        + s.redo.reverse().map_values(|m: MoveView| move_line(m))
}

/// The pattern of a line that stores a move.
pub open spec fn move_line_pattern() -> Seq<char> {
    "^(BLACK|WHITE) ([1-8]) ([1-8])$"@
}

/// The side that a word names.
pub open spec fn side_of(token: Seq<char>) -> Option<Turn> {
    if token == "BLACK"@ {
        Some(Turn::Black)
    } else if token == "WHITE"@ {
        Some(Turn::White)
    } else {
        None
    }
}

/// The row or column that a text names: one digit from 1 to 8.
pub open spec fn coordinate_of(token: Seq<char>) -> Option<i8> {
    if token.len() == 1 && '1' <= token[0] <= '8' {
        Some(digit_value(token[0]) as i8)
    } else {
        None
    }
}

/// The move that the groups of a matched line give: group 1 names the side,
/// groups 2 and 3 the row and the column. The captures are not stored, so the
/// move has none.
pub open spec fn move_of_groups(groups: Seq<Option<Seq<char>>>) -> Option<MoveView> {
    if groups.len() == 4 && groups[1] is Some && groups[2] is Some && groups[3] is Some {
        match (side_of(groups[1]->0), coordinate_of(groups[2]->0), coordinate_of(groups[3]->0)) {
            (Some(turn), Some(row), Some(col)) => Some(
                MoveView { turn, put_pos: CellPos { row, col }, flipped: Seq::empty() },
            ),
            _ => None,
        }
    } else {
        None
    }
}

/// The move that the outcome of a match gives; none where nothing matched.
pub open spec fn move_of_match(found: Option<Seq<Option<Seq<char>>>>) -> Option<MoveView> {
    match found {
        Some(groups) => move_of_groups(groups),
        None => None,
    }
}

/// The move that a line stores, if it stores one.
pub open spec fn move_of_line(line: Seq<char>) -> Option<MoveView> {
    move_of_match(pattern_groups(move_line_pattern(), line))
}

/// The moves that the lines store, where every line stores one.
pub open spec fn moves_of_lines(lines: Seq<Seq<char>>) -> Option<Seq<MoveView>> {
    if forall|i: int| 0 <= i < lines.len() ==> move_of_line(#[trigger] lines[i]) is Some {
        Some(lines.map_values(|line: Seq<char>| move_of_line(line)->0))
    } else {
        None
    }
}

/// The moves shared out between the two stacks: the first `count` are those
/// of the undo stack. There is no such split of fewer than `count` moves.
pub open spec fn split_moves(count: nat, moves: Seq<MoveView>) -> Option<
    (Seq<MoveView>, Seq<MoveView>),
> {
    if count <= moves.len() {
        Some((moves.take(count as int), moves.skip(count as int)))
    } else {
        None
    }
}

/// The two lists of moves that a stored game holds, where it is well formed:
/// a first line with the count, then lines that each store a move, at least
/// as many as the count says.
pub open spec fn parsed_history(lines: Seq<Seq<char>>) -> Option<(Seq<MoveView>, Seq<MoveView>)> {
    if lines.len() == 0 {
        None
    } else {
        match (decimal_value(trimmed(lines[0])), moves_of_lines(lines.drop_first())) {
            (Some(count), Some(moves)) => split_moves(count as nat, moves),
            _ => None,
        }
    }
}

pub fn turn_to_string(turn: &Turn) -> (s: &'static str)
    ensures
        s@ == turn_text(*turn),
{
    match turn {
        Turn::Black => "BLACK",
        Turn::White => "WHITE",
    }
}

/// The line that stores a move.
pub fn format_move(m: &Move) -> (line: String)
    requires
        0 <= m.put_pos.row,
        0 <= m.put_pos.col,
    ensures
        line@ == move_line(m@),
{
    let mut line = String::from_str(turn_to_string(&m.turn));
    line.append(" ");
    line.append(to_decimal(m.put_pos.row as usize).as_str());
    line.append(" ");
    line.append(to_decimal(m.put_pos.col as usize).as_str());
    line
}

/// The lines that store a game.
pub fn history_lines(state: &ReversiState) -> (lines: Vec<String>)
    requires
        state.wf(),
    ensures
        lines.deep_view() == history_text(state@),
{
    let mut lines: Vec<String> = Vec::new();
    lines.push(to_decimal(state.undo_buffer.len()));
    let ghost undo = state@.undo;
    let ghost redo = state@.redo;
    let mut i: usize = 0;
    while i < state.undo_buffer.len()
        invariant
            i <= state.undo_buffer@.len(),
            state.wf(),
            undo == state@.undo,
            lines.deep_view() == seq![decimal_text(undo.len())] + undo.take(i as int).map_values(
                |m: MoveView| move_line(m),
            ),
        decreases state.undo_buffer@.len() - i,
    {
        assert(state@.undo[i as int].wf());
        let line = format_move(&state.undo_buffer[i]);
        let ghost before = lines.deep_view();
        lines.push(line);
        proof {
            assert(lines.deep_view() =~= before.push(line@));
            assert(lines.deep_view() =~= seq![decimal_text(undo.len())] + undo.take(
                i + 1,
            ).map_values(|m: MoveView| move_line(m)));
        }
        i += 1;
    }
    proof {
        assert(undo.take(state.undo_buffer@.len() as int) =~= undo);
    }
    let n = state.redo_buffer.len();
    let mut j: usize = 0;
    while j < n
        invariant
            j <= n,
            n == state.redo_buffer@.len(),
            state.wf(),
            undo == state@.undo,
            redo == state@.redo,
            lines.deep_view() == seq![decimal_text(undo.len())] + undo.map_values(
                |m: MoveView| move_line(m),
            ) + redo.reverse().take(j as int).map_values(|m: MoveView| move_line(m)),
        decreases n - j,
    {
        assert(state@.redo[n - 1 - j].wf());
        let line = format_move(&state.redo_buffer[n - 1 - j]);
        let ghost before = lines.deep_view();
        lines.push(line);
        proof {
            assert(lines.deep_view() =~= before.push(line@));
            assert(redo.reverse()[j as int] == redo[n - 1 - j]);
            assert(lines.deep_view() =~= seq![decimal_text(undo.len())] + undo.map_values(
                |m: MoveView| move_line(m),
            ) + redo.reverse().take(j + 1).map_values(|m: MoveView| move_line(m)));
        }
        j += 1;
    }
    proof {
        assert(redo.reverse().take(n as int) =~= redo.reverse());
    }
    lines
}

/// The number that the first line of a stored game gives, whitespace around
/// it set aside.
pub fn parse_count(line: &str) -> (r: Option<usize>)
    ensures
        r == decimal_value(trimmed(line@)),
{
    parse_decimal(trim(line))
}

/// The row or column that a text names.
pub fn parse_coordinate(token: &str) -> (r: Option<i8>)
    ensures
        r == coordinate_of(token@),
{
    if token.unicode_len() != 1 {
        return None;
    }
    let c = token.get_char(0);
    if '1' <= c && c <= '8' {
        Some((c as u32 - '0' as u32) as i8)
    } else {
        None
    }
}

/// The side that a word names.
pub fn parse_side(token: &str) -> (r: Option<Turn>)
    ensures
        r == side_of(token@),
{
    if same_text(token, "BLACK") {
        Some(Turn::Black)
    } else if same_text(token, "WHITE") {
        Some(Turn::White)
    } else {
        None
    }
}

/// Reads a move out of what matching a line against the pattern gave.
pub fn move_from_match(found: &Option<Vec<Option<String>>>) -> (r: Option<Move>)
    ensures
        match r {
            Some(m) => move_of_match(found.deep_view()) == Some(m@),
            None => move_of_match(found.deep_view()) is None,
        },
{
    let groups = match found {
        Some(groups) => groups,
        None => {
            return None;
        },
    };
    if groups.len() != 4 {
        return None;
    }
    proof {
        let deep = groups.deep_view();
        assert(deep[1] == groups@[1].deep_view());
        assert(deep[2] == groups@[2].deep_view());
        assert(deep[3] == groups@[3].deep_view());
    }
    let turn = match &groups[1] {
        Some(token) => match parse_side(token.as_str()) {
            Some(turn) => turn,
            None => {
                return None;
            },
        },
        None => {
            return None;
        },
    };
    let row = match &groups[2] {
        Some(token) => match parse_coordinate(token.as_str()) {
            Some(row) => row,
            None => {
                return None;
            },
        },
        None => {
            return None;
        },
    };
    let col = match &groups[3] {
        Some(token) => match parse_coordinate(token.as_str()) {
            Some(col) => col,
            None => {
                return None;
            },
        },
        None => {
            return None;
        },
    };
    Some(Move { turn, put_pos: CellPos { row, col }, flipped_pos_list: Vec::new() })
}

/// Reads the move that a line stores. A line that does not have the shape of
/// a stored move is refused, and so is every line should the pattern of such
/// a line not be accepted.
pub fn parse_move_line(line: &str) -> (r: Result<Move, ReversiError>)
    ensures
        match r {
            Ok(m) => move_of_line(line@) == Some(m@),
            Err(e) => e.is_of(ErrorKind::PersistedDataCorrupt),
        },
        r is Ok ==> pattern_accepted(move_line_pattern()),
        pattern_accepted(move_line_pattern()) ==> (r is Ok <==> move_of_line(line@) is Some),
{
    let found = match match_groups("^(BLACK|WHITE) ([1-8]) ([1-8])$", line) {
        Ok(found) => found,
        Err(_) => {
            return Err(ReversiError::of(ErrorKind::PersistedDataCorrupt));
        },
    };
    match move_from_match(&found) {
        Some(m) => Ok(m),
        None => Err(ReversiError::of(ErrorKind::PersistedDataCorrupt)),
    }
}

/// Shares the stored moves out between the two stacks. A count that is
/// larger than the number of moves is refused.
pub fn split_history(undo_count: usize, moves: Vec<Move>) -> (r: Result<
    (Vec<Move>, Vec<Move>),
    ReversiError,
>)
    ensures
        match r {
            Ok(lists) => split_moves(undo_count as nat, move_views(moves@)) == Some(
                (move_views(lists.0@), move_views(lists.1@)),
            ),
            Err(e) => split_moves(undo_count as nat, move_views(moves@)) is None && e.is_of(
                ErrorKind::PersistedDataCorrupt,
            ),
        },
{
    if undo_count > moves.len() {
        return Err(ReversiError::of(ErrorKind::PersistedDataCorrupt));
    }
    let mut undo_list = moves;
    let redo_list = undo_list.split_off(undo_count);
    proof {
        assert(move_views(undo_list@) =~= move_views(moves@).take(undo_count as int));
        assert(move_views(redo_list@) =~= move_views(moves@).skip(undo_count as int));
    }
    Ok((undo_list, redo_list))
}

/// Reads a stored game: the moves of the undo stack and those of the redo
/// stack, each in the order in which they were played.
pub fn parse_history(lines: &Vec<String>) -> (r: Result<(Vec<Move>, Vec<Move>), ReversiError>)
    ensures
        match r {
            Ok(lists) => parsed_history(lines.deep_view()) == Some(
                (move_views(lists.0@), move_views(lists.1@)),
            ),
            Err(e) => e.is_of(ErrorKind::PersistedDataCorrupt),
        },
        lines@.len() <= 1 || pattern_accepted(move_line_pattern()) ==> (r is Ok
            <==> parsed_history(lines.deep_view()) is Some),
{
    if lines.len() == 0 {
        return Err(ReversiError::of(ErrorKind::PersistedDataCorrupt));
    }
    let undo_count = match parse_count(lines[0].as_str()) {
        Some(count) => count,
        None => {
            return Err(ReversiError::of(ErrorKind::PersistedDataCorrupt));
        },
    };
    let ghost rest = lines.deep_view().drop_first();
    let mut moves: Vec<Move> = Vec::new();
    let mut i: usize = 1;
    while i < lines.len()
        invariant
            1 <= i <= lines@.len(),
            rest == lines.deep_view().drop_first(),
            moves@.len() == i - 1,
            forall|j: int| 0 <= j < i - 1 ==> move_of_line(#[trigger] rest[j]) == Some(moves@[j]@),
        decreases lines@.len() - i,
    {
        proof {
            assert(rest[i - 1] == lines@[i as int]@);
        }
        let m = match parse_move_line(lines[i].as_str()) {
            Ok(m) => m,
            Err(e) => {
                return Err(e);
            },
        };
        moves.push(m);
        i += 1;
    }
    proof {
        assert(moves_of_lines(rest) == Some(move_views(moves@))) by {
            assert(rest.map_values(|line: Seq<char>| move_of_line(line)->0) =~= move_views(
                moves@,
            ));
        }
        assert(lines.deep_view()[0] == lines@[0]@);
    }
    split_history(undo_count, moves)
}

} // verus!
