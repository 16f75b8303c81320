//! Kind taxonomies and rule tables.

pub mod dynamic_piece_set;
pub mod standard_laws;
pub mod standard_piece;
pub mod standard_piece_set;
