pub mod text;
pub mod pattern;
pub mod fileio;
