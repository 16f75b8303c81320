//! A move-legality engine for board games played with pieces on a rectangular
//! grid: it answers where a given piece may go, applies a chosen relocation and
//! keeps the per-piece history that conditional rules consult.

pub mod board;
pub mod game;
pub mod implementations;
pub mod movement;
pub mod piece;
