//! Landing policies: what a walking piece may do with the square it reaches.

use vstd::prelude::*;
use crate::movement::CalculationResult;
use crate::piece::Piece;
use crate::piece::piece_id::PieceId;
use crate::piece::sign::Sign;

verus! {

/// A landing policy given as data: the occupant may be taken if its kind
/// value lies between `lowest` and `highest`, if it stands on a side that the
/// policy admits, and while fewer than `max` pieces were taken on this walk.
#[derive(Clone, Copy, PartialEq, Eq, Structural, Debug)]
pub struct CapturePredicate {
    pub lowest: isize,
    pub highest: isize,
    pub matching: bool,
    pub opposing: bool,
    pub max: usize,
}

impl CapturePredicate {
    /// Whether the predicate lets a mover take an occupant of the given kind
    /// and side after `captured` earlier captures.
    pub open spec fn accepts(self, mover: Sign, other_kind: int, other: Sign, captured: nat) -> bool {
        &&& self.lowest <= other_kind <= self.highest
        &&& (self.matching && mover == other) || (self.opposing && mover.opposite(other))
        &&& captured < self.max
    }

    /// Whether a mover may take an occupant after `captured` earlier captures.
    pub fn test<P: Piece>(&self, id: &PieceId<P>, other: &PieceId<P>, captured: usize) -> (b: bool)
        ensures
            b == self.accepts(id.1, other.0.value(), other.1, captured as nat),
    {
        let kind = other.piece().to_value();
        self.lowest <= kind && kind <= self.highest && ((self.matching && id.matches(other)) || (
        self.opposing && id.opposes(other))) && captured < self.max
    }
}

/// The policy that decides whether a walk may land on an occupied square.
#[derive(Clone, Copy, PartialEq, Eq, Structural, Debug)]
pub enum CanCapture {
    /// An occupied square always blocks.
    Never,
    /// An occupant of the mover's own side may be taken, up to the given count.
    Matching(usize),
    /// An occupant of the opposite side may be taken, up to the given count.
    Opposing(usize),
    /// Any occupant may be taken, up to the given count.
    All(usize),
    /// The occupants that the predicate accepts may be taken.
    Specific(CapturePredicate),
}

impl CanCapture {
    /// The capture limit, which every classification carries along.
    pub open spec fn limit(self) -> usize {
        match self {
            CanCapture::Never => 0,
            CanCapture::Matching(max) => max,
            CanCapture::Opposing(max) => max,
            CanCapture::All(max) => max,
            CanCapture::Specific(predicate) => predicate.max,
        }
    }

    /// Whether the occupant of a square may be taken by a mover that has
    /// taken `captured` pieces on this walk already.
    pub open spec fn accepts(self, mover: Sign, other_kind: int, other: Sign, captured: nat) -> bool {
        match self {
            CanCapture::Never => false,
            CanCapture::Matching(max) => mover == other && captured < max,
            CanCapture::Opposing(max) => mover.opposite(other) && captured < max,
            CanCapture::All(max) => captured < max,
            CanCapture::Specific(predicate) => predicate.accepts(mover, other_kind, other, captured),
        }
    }

    /// The classification of a square: free if nothing stands on it, else
    /// captured or blocked as the policy decides.
    pub open spec fn classify(self, mover: Sign, other_kind: int, other: Sign, captured: nat)
        -> CalculationResult {
        if other_kind == 0 {
            CalculationResult::Free(self.limit())
        } else if self.accepts(mover, other_kind, other, captured) {
            CalculationResult::Captured(self.limit())
        } else {
            CalculationResult::Blocked(self.limit())
        }
    }

    /// The capture count after the square: one more if its occupant was taken.
    pub open spec fn counted(self, mover: Sign, other_kind: int, other: Sign, captured: nat)
        -> nat {
        if other_kind != 0 && self.accepts(mover, other_kind, other, captured) {
            captured + 1
        } else {
            captured
        }
    }

    fn max(&self) -> (max: usize)
        ensures
            max == self.limit(),
    {
        match self {
            CanCapture::Never => 0,
            CanCapture::Matching(max) => *max,
            CanCapture::Opposing(max) => *max,
            CanCapture::All(max) => *max,
            CanCapture::Specific(predicate) => predicate.max,
        }
    }

    fn admits<P: Piece>(&self, id: &PieceId<P>, other: &PieceId<P>, captured: usize) -> (b: bool)
        ensures
            b == self.accepts(id.1, other.0.value(), other.1, captured as nat),
    {
        match self {
            CanCapture::Never => false,
            CanCapture::Matching(max) => id.matches(other) && captured < *max,
            CanCapture::Opposing(max) => id.opposes(other) && captured < *max,
            CanCapture::All(max) => captured < *max,
            CanCapture::Specific(predicate) => predicate.test(id, other, captured),
        }
    }

    /// Classifies the encounter of the mover `id` with the occupant `other`
    /// and counts the capture, if it is one.
    pub fn calculate<P: Piece>(&self, id: &PieceId<P>, other: &PieceId<P>, captured: &mut usize)
        -> (result: CalculationResult)
        ensures
            result == self.classify(id.1, other.0.value(), other.1, *old(captured) as nat),
            *final(captured) == self.counted(id.1, other.0.value(), other.1, *old(captured) as nat),
    {
        if other.is_none() {
            CalculationResult::Free(self.max())
        } else if self.admits(id, other, *captured) {
            *captured = *captured + 1;
            CalculationResult::Captured(self.max())
        } else {
            CalculationResult::Blocked(self.max())
        }
    }

    /// Whether the mover may step on the square of `other`: true unless the
    /// encounter is classified as blocked. A capture is counted.
    pub fn check<P: Piece>(&self, id: &PieceId<P>, other: &PieceId<P>, captured: &mut usize) -> (b:
        bool)
        ensures
            b == !(self.classify(id.1, other.0.value(), other.1, *old(captured) as nat) is Blocked),
            *final(captured) == self.counted(id.1, other.0.value(), other.1, *old(captured) as nat),
    {
        match self.calculate(id, other, captured) {
            CalculationResult::Blocked(_) => false,
            _ => true,
        }
    }
}

} // verus!
