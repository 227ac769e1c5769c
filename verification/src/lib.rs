//! A two-player Reversi engine: an 8x8 board ringed by sentinel cells, the
//! capture search, move application with linear undo/redo, the text form of
//! a recorded game, and the reading of what the player types.

pub mod error;
pub mod domain_model;
pub mod service;
pub mod laws;
pub mod data;
pub mod view;
