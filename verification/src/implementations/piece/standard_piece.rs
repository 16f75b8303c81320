//! The orthodox chess kinds, open to further kinds by number.

use vstd::prelude::*;
use crate::piece::Piece;

verus! {

/// The six chess kinds, the empty kind, and any further kind by its number.
/// Further kinds are numbered from `7` on, after the values of the named
/// kinds.
#[derive(Clone, Copy, PartialEq, Eq, PartialOrd, Structural, Hash, Debug)]
pub enum StandardPiece {
    Empty,
    Pawn,
    Knight,
    Bishop,
    Rook,
    Queen,
    King,
    Unknown(usize),
}

impl Piece for StandardPiece {
    /// The named kinds count from `0` to `6`. A numbered kind has its own
    /// number from `7` on; a number that belongs to a named kind, or that is
    /// beyond the signed codes, is held at the largest signed code.
    open spec fn value(self) -> int {
        match self {
            StandardPiece::Empty => 0,
            StandardPiece::Pawn => 1,
            StandardPiece::Knight => 2,
            StandardPiece::Bishop => 3,
            StandardPiece::Rook => 4,
            StandardPiece::Queen => 5,
            StandardPiece::King => 6,
            StandardPiece::Unknown(u) => if 7 <= u <= isize::MAX {
                u as int
            } else {
                isize::MAX as int
            },
        }
    }

    /// The named kind for a value up to `6`, the numbered kind beyond.
    open spec fn of_value(v: int) -> StandardPiece {
        if v == 0 {
            StandardPiece::Empty
        } else if v == 1 {
            StandardPiece::Pawn
        } else if v == 2 {
            StandardPiece::Knight
        } else if v == 3 {
            StandardPiece::Bishop
        } else if v == 4 {
            StandardPiece::Rook
        } else if v == 5 {
            StandardPiece::Queen
        } else if v == 6 {
            StandardPiece::King
        } else {
            StandardPiece::Unknown(v as usize)
        }
    }

    proof fn lemma_value_in_range(self) {
    }

    proof fn lemma_of_value(v: int) {
    }

    proof fn lemma_empty_alone(self) {
    }

    fn none() -> (p: Self) {
        StandardPiece::Empty
    }

    fn to_value(self) -> (v: isize) {
        match self {
            StandardPiece::Empty => 0,
            StandardPiece::Pawn => 1,
            StandardPiece::Knight => 2,
            StandardPiece::Bishop => 3,
            StandardPiece::Rook => 4,
            StandardPiece::Queen => 5,
            StandardPiece::King => 6,
            StandardPiece::Unknown(u) => {
                if 7 <= u && u <= isize::MAX as usize {
                    assert(self.value() == u);
                    u as isize
                } else {
                    isize::MAX
                }
            },
        }
    }

    fn from_value(v: isize) -> (p: Self) {
        if v == 0 {
            StandardPiece::Empty
        } else if v == 1 {
            StandardPiece::Pawn
        } else if v == 2 {
            StandardPiece::Knight
        } else if v == 3 {
            StandardPiece::Bishop
        } else if v == 4 {
            StandardPiece::Rook
        } else if v == 5 {
            StandardPiece::Queen
        } else if v == 6 {
            StandardPiece::King
        } else {
            StandardPiece::Unknown(v as usize)
        }
    }
}

impl StandardPiece {
    /// Below the largest signed code, kinds and values stand for one another
    /// one to one: a kind is the kind that its value names.
    pub proof fn lemma_value_names_kind(self)
        requires
            self.value() < isize::MAX,
        ensures
            self == StandardPiece::of_value(self.value()),
    {
    }
}

} // verus!
