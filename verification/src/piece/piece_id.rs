//! The identity of one piece instance and its integer projection.

use vstd::prelude::*;
use crate::piece::Piece;
use crate::piece::sign::{lemma_sign_algebra, Sign};

verus! {

/// One piece instance: its kind, its side, and a version that tells apart the
/// instances that share kind and side.
#[derive(Clone, Copy)]
pub struct PieceId<T>(pub T, pub Sign, pub usize);

/// The signed code of a kind value on a side.
pub open spec fn signed_code(kind_value: int, sign: Sign) -> int {
    sign.scale(kind_value)
}

/// The kind value that a signed code carries.
pub open spec fn code_kind(code: int) -> int {
    if code < 0 {
        -code
    } else {
        code
    }
}

impl<T: Piece> PieceId<T> {
    /// The signed code: the kind value multiplied by the side.
    pub open spec fn code(&self) -> int {
        signed_code(self.0.value(), self.1)
    }

    /// The key under which boards and histories know this piece.
    pub open spec fn key(&self) -> (isize, usize) {
        (self.code() as isize, self.2)
    }

    /// Whether the kind is the empty kind, which is the one kind of value `0`.
    pub fn is_none(&self) -> (b: bool)
        ensures
            b == (self.0 == T::of_value(0)),
            b == (self.0.value() == 0),
    {
        proof {
            T::lemma_of_value(0);
            if self.0.value() == 0 {
                self.0.lemma_empty_alone();
            }
        }
        self.0.to_value() == 0
    }

    /// The kind.
    pub fn piece(&self) -> (p: T)
        ensures
            p == self.0,
    {
        self.0
    }

    /// The side.
    pub fn sign(&self) -> (s: Sign)
        ensures
            s == self.1,
    {
        self.1
    }

    /// The version among the pieces of the same kind and side.
    pub fn version(&self) -> (v: usize)
        ensures
            v == self.2,
    {
        self.2
    }

    /// The signed code: the kind value multiplied by the side, so `0` for
    /// the empty kind and for no side.
    pub fn i(&self) -> (c: isize)
        ensures
            c == self.code(),
            c == self.0.value() * self.1.unit(),
            -isize::MAX <= c <= isize::MAX,
            c == 0 <==> (self.0.value() == 0 || self.1 == Sign::Neutral),
    {
        proof {
            self.lemma_code_in_range();
        }
        let v = self.0.to_value();
        self.1.times(v)
    }

    /// Whether the two stand on the same side, whatever their kinds.
    pub fn matches(&self, other: &Self) -> (b: bool)
        ensures
            b == (self.1 == other.1),
    {
        self.1 == other.1
    }

    /// Whether the two stand on strictly opposite sides: one on the positive
    /// and one on the negative side. An identity without a side opposes
    /// nothing.
    pub fn opposes(&self, other: &Self) -> (b: bool)
        ensures
            b == self.1.opposite(other.1),
    {
        match (self.1, other.1) {
            (Sign::Positive, Sign::Negative) => true,
            (Sign::Negative, Sign::Positive) => true,
            _ => false,
        }
    }

    /// The identity that a board cell stands for: the kind and side that the
    /// signed code carries, with the given version.
    pub fn from_code(code: isize, version: usize) -> (id: Self)
        requires
            code != isize::MIN,
        ensures
            id.0 == T::of_value(code_kind(code as int)),
            id.0.value() == code_kind(code as int),
            id.1 == Sign::of(code as int),
            id.2 == version,
            id.code() == code,
            id.key() == (code, version),
    {
        let kind_value = if code < 0 {
            -code
        } else {
            code
        };
        PieceId(T::from_value(kind_value), Sign::from_code(code), version)
    }

    /// The signed code and the version, which together name the piece.
    pub fn as_key(&self) -> (k: (isize, usize))
        ensures
            k == self.key(),
            k.0 == self.code(),
            k.0 != isize::MIN,
    {
        (self.i(), self.2)
    }

    /// The signed code fits the storage unit of a board, and it is `0` only
    /// for the empty kind or for no side.
    pub proof fn lemma_code_in_range(&self)
        ensures
            -isize::MAX <= self.code() <= isize::MAX,
            self.code() == self.0.value() * self.1.unit(),
            self.key().0 == self.code(),
            self.code() == 0 <==> (self.0.value() == 0 || self.1 == Sign::Neutral),
            code_kind(self.code()) == if self.1 == Sign::Neutral {
                0
            } else {
                self.0.value()
            },
    {
        self.0.lemma_value_in_range();
        lemma_sign_algebra(self.1, self.0.value());
    }
}

impl<T: Piece> Default for PieceId<T> {
    /// The empty identity: the empty kind on no side.
    fn default() -> (id: Self)
        ensures
            id.0 == T::of_value(0),
            id.0.value() == 0,
            id.1 == Sign::Neutral,
            id.2 == 0,
            id.code() == 0,
    {
        PieceId(T::none(), Sign::Neutral, 0)
    }
}

} // verus!
