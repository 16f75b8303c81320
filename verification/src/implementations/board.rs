//! Board storage.

pub mod standard_board;
