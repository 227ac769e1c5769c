pub mod cell;
pub mod cell_pos;
pub mod turn;
pub mod grid;
pub mod board;
pub mod move_record;
pub mod reversi_state;
pub mod history;
