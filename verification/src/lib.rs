//! Noughts and crosses on a three by three grid, with an engine that
//! searches the game tree for its move.

pub mod analysis;
pub mod board;
pub mod difficulty;
pub mod game;
pub mod input;
pub mod search;
