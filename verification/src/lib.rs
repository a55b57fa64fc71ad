//! A tic-tac-toe engine: a 3x3 board, two markers that take turns, and the
//! classification of a position as won, drawn or still open.

pub mod player;
pub mod board;
pub mod position;
pub mod game;
pub mod laws;
pub mod render;
pub mod input;
