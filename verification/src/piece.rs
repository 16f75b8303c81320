//! Piece identity: the kind taxonomy, the side algebra, identities and squares.

use vstd::prelude::*;

pub mod piece_id;
pub mod piece_pos;
pub mod piece_set;
pub mod sign;

verus! {

/// A taxonomy of piece kinds. Kinds and non-negative integers stand for one
/// another: every kind has a value, every value that a board can store names
/// one kind, and that kind has the value back. The value `0` belongs to the
/// reserved empty kind and to no other.
pub trait Piece: Copy {
    /// The integer that stands for this kind.
    spec fn value(self) -> int;

    /// The kind that an integer stands for.
    spec fn of_value(v: int) -> Self;

    /// Kind values are non-negative and fit the storage unit of a board.
    proof fn lemma_value_in_range(self)
        ensures
            0 <= self.value() <= isize::MAX,
    ;

    /// The kind that a value stands for has that value, so that different
    /// values stand for different kinds.
    proof fn lemma_of_value(v: int)
        requires
            0 <= v <= isize::MAX,
        ensures
            Self::of_value(v).value() == v,
    ;

    /// Only the empty kind has the value `0`.
    proof fn lemma_empty_alone(self)
        requires
            self.value() == 0,
        ensures
            self == Self::of_value(0),
    ;

    /// The reserved empty kind.
    fn none() -> (p: Self)
        ensures
            p == Self::of_value(0),
            p.value() == 0,
    ;

    /// The integer that stands for this kind.
    fn to_value(self) -> (v: isize)
        ensures
            v == self.value(),
            0 <= v,
    ;

    /// The kind that a non-negative integer stands for.
    fn from_value(v: isize) -> (p: Self)
        requires
            0 <= v,
        ensures
            p == Self::of_value(v as int),
            p.value() == v,
    ;
}

} // verus!
