//! The board and the piece sets that come with the engine.

pub mod board;
pub mod piece;
