use vstd::prelude::*;
use crate::data::text::{decimal_value, parse_decimal, trim, trimmed};

verus! {

/// What the player picks in the menu of the title screen.
#[derive(Debug, PartialEq, Eq, Structural, Clone, Copy)]
pub enum MenuChoice {
    /// 1: start a new game.
    NewGame,
    /// 2: go on with the stored game.
    Continue,
    /// 9: leave.
    Exit,
    /// Anything else: the menu asks again.
    Invalid,
}

/// The choice that a line of input stands for: the number 1, 2 or 9, with
/// or without whitespace around it.
pub open spec fn menu_choice_of(line: Seq<char>) -> MenuChoice {
    match decimal_value(trimmed(line)) {
        Some(n) => if n == 1 {
            MenuChoice::NewGame
        } else if n == 2 {
            MenuChoice::Continue
        } else if n == 9 {
            MenuChoice::Exit
        } else {
            MenuChoice::Invalid
        },
        None => MenuChoice::Invalid,
    }
}

/// Reads the player's choice in the menu of the title screen.
pub fn read_menu_choice(line: &str) -> (r: MenuChoice)
    ensures
        r == menu_choice_of(line@),
{
    match parse_decimal(trim(line)) {
        Some(n) => if n == 1 {
            MenuChoice::NewGame
        } else if n == 2 {
            MenuChoice::Continue
        } else if n == 9 {
            MenuChoice::Exit
        } else {
            MenuChoice::Invalid
        },
        None => MenuChoice::Invalid,
    }
}

} // verus!
