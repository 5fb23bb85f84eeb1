//! A falling-block puzzle engine: a fixed grid, seven tetromino shapes, and a
//! game state machine that moves, rotates, locks and clears with proved contracts.

pub mod piece;
pub mod board;
pub mod game;
