pub mod game_view;
pub mod title_view;
