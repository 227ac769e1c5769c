use vstd::prelude::*;
use vstd::string::*;

verus! {

/// Why an operation of the engine was refused.
#[derive(Debug, Clone, Copy, PartialEq, Eq, Structural)]
pub enum ErrorKind {
    /// The position is not one of the 8x8 playable cells.
    OutOfRange,
    /// The target cell already holds something.
    CellOccupied,
    /// The placement would flip no stone.
    NoCapture,
    /// Undo or redo was asked for with nothing to take back or replay.
    NoHistory,
    /// The capture search was asked about something that is not a colour.
    InvalidStoneArgument,
    /// A stored game does not have the expected shape.
    PersistedDataCorrupt,
}

impl ErrorKind {
    /// The message that goes with each kind of error.
    pub open spec fn text(self) -> Seq<char> {
        match self {
            ErrorKind::OutOfRange => "盤面の範囲外です"@,
            ErrorKind::CellOccupied => "既に石が置かれています"@,
            ErrorKind::NoCapture => "反転できる石がありません"@,
            ErrorKind::NoHistory => "履歴がありません"@,
            ErrorKind::InvalidStoneArgument => "BlankCell, OuterCellは指定できません"@,
            ErrorKind::PersistedDataCorrupt => "読み取りに失敗しました"@,
        }
    }

    /// The message for this kind of error.
    pub fn describe(self) -> (s: &'static str)
        ensures
            s@ == self.text(),
    {
        match self {
            ErrorKind::OutOfRange => "盤面の範囲外です",
            ErrorKind::CellOccupied => "既に石が置かれています",
            ErrorKind::NoCapture => "反転できる石がありません",
            ErrorKind::NoHistory => "履歴がありません",
            ErrorKind::InvalidStoneArgument => "BlankCell, OuterCellは指定できません",
            ErrorKind::PersistedDataCorrupt => "読み取りに失敗しました",
        }
    }
}

/// The message of a redo that finds nothing to play again. Its kind is
/// `NoHistory`, as for an undo that finds nothing to take back.
pub open spec fn redo_empty_text() -> Seq<char> {
    "redoバッファが空です"@
}

/// An error of the engine: its kind, and a message for the player.
#[derive(Debug)]
pub struct ReversiError {
    pub kind: ErrorKind,
    pub message: String,
}

impl Clone for ReversiError {
    fn clone(&self) -> (e: ReversiError)
        ensures
            e.kind == self.kind,
            e.message@ == self.message@,
    {
        ReversiError { kind: self.kind, message: self.message.clone() }
    }
}

impl ReversiError {
    /// An error of a given kind with a message of its own.
    pub fn new(kind: ErrorKind, message: &str) -> (e: ReversiError)
        ensures
            e.kind == kind,
            e.message@ == message@,
    {
        ReversiError { kind, message: message.to_owned() }
    }

    /// True when the error is of `kind` and carries that kind's usual message.
    pub open spec fn is_of(self, kind: ErrorKind) -> bool {
        self.kind == kind && self.message@ == kind.text()
    }

    /// True when the error says that redo found nothing to play again.
    pub open spec fn is_redo_empty(self) -> bool {
        self.kind == ErrorKind::NoHistory && self.message@ == redo_empty_text()
    }

    /// The error of a redo that finds nothing to play again.
    pub fn redo_empty() -> (e: ReversiError)
        ensures
            e.is_redo_empty(),
    {
        ReversiError::new(ErrorKind::NoHistory, "redoバッファが空です")
    }

    /// The error of a given kind with its usual message.
    pub fn of(kind: ErrorKind) -> (e: ReversiError)
        ensures
            e.is_of(kind),
    {
        ReversiError::new(kind, kind.describe())
    }
}

} // verus!
