//! Core of a falling-block puzzle game: the grid, the falling piece, line
//! clearing and the per-tick state machine, all verified.

pub mod position;
pub mod shape;
pub mod board;
pub mod piece;
pub mod game;
pub mod layout;
