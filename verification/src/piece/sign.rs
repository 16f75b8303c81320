//! The side a piece plays for, as an explicit value with its own arithmetic.

use vstd::prelude::*;

verus! {

/// Ownership and direction of a piece. `Neutral` belongs to the empty kind
/// only; the other two are the opposing sides. The sides are ordered as
/// their units are: negative, neutral, positive.
#[derive(Clone, Copy, PartialEq, Eq, PartialOrd, Structural, Debug)]
pub enum Sign {
    Negative,
    Neutral,
    Positive,
}

impl Sign {
    /// The multiplier that the side stands for: `0`, `1` or `-1`.
    pub open spec fn unit(self) -> int {
        match self {
            Sign::Neutral => 0,
            Sign::Positive => 1,
            Sign::Negative => -1,
        }
    }

    /// `n` taken towards the side: `n`, `-n`, or `0` for no side.
    pub open spec fn scale(self, n: int) -> int {
        match self {
            Sign::Neutral => 0,
            Sign::Positive => n,
            Sign::Negative => -n,
        }
    }

    /// Whether the two are the two sides of a game, one positive and one
    /// negative. No side opposes nothing, not even itself.
    pub open spec fn opposite(self, other: Sign) -> bool {
        (self == Sign::Positive && other == Sign::Negative) || (self == Sign::Negative && other
            == Sign::Positive)
    }

    /// The side whose multiplier has the sign of `i`.
    pub open spec fn of(i: int) -> Sign {
        if i > 0 {
            Sign::Positive
        } else if i < 0 {
            Sign::Negative
        } else {
            Sign::Neutral
        }
    }

    /// The side that a signed code belongs to.
    pub fn from_code(i: isize) -> (s: Sign)
        ensures
            s == Sign::of(i as int),
    {
        if i > 0 {
            Sign::Positive
        } else if i < 0 {
            Sign::Negative
        } else {
            Sign::Neutral
        }
    }

    /// The opposite side; `Neutral` is its own opposite.
    pub fn negate(self) -> (s: Sign)
        ensures
            s.unit() == -self.unit(),
    {
        match self {
            Sign::Neutral => Sign::Neutral,
            Sign::Positive => Sign::Negative,
            Sign::Negative => Sign::Positive,
        }
    }

    /// `rhs` multiplied by the side's multiplier.
    pub fn times(self, rhs: isize) -> (r: isize)
        requires
            rhs != isize::MIN,
        ensures
            r == self.scale(rhs as int),
    {
        match self {
            Sign::Neutral => 0,
            Sign::Positive => rhs,
            Sign::Negative => -rhs,
        }
    }

    /// `rhs` moved one unit towards the side.
    pub fn plus(self, rhs: isize) -> (r: isize)
        requires
            isize::MIN <= rhs + self.unit() <= isize::MAX,
        ensures
            r == rhs + self.unit(),
    {
        match self {
            Sign::Neutral => rhs,
            Sign::Positive => rhs + 1,
            Sign::Negative => rhs - 1,
        }
    }

    /// `rhs` moved one unit away from the side.
    pub fn minus(self, rhs: isize) -> (r: isize)
        requires
            isize::MIN <= rhs - self.unit() <= isize::MAX,
        ensures
            r == rhs - self.unit(),
    {
        match self {
            Sign::Neutral => rhs,
            Sign::Positive => rhs - 1,
            Sign::Negative => rhs + 1,
        }
    }
}

/// Scaling by a side is multiplying by its unit, and a positive number
/// scaled by a side lies on that side.
pub proof fn lemma_sign_algebra(s: Sign, k: int)
    ensures
        s.scale(k) == s.unit() * k,
        k > 0 ==> Sign::of(s.scale(k)) == s,
{
    assert(s.unit() * k == s.scale(k)) by (nonlinear_arith)
        requires
            s.unit() == 0 || s.unit() == 1 || s.unit() == -1,
            s.unit() == 0 ==> s.scale(k) == 0,
            s.unit() == 1 ==> s.scale(k) == k,
            s.unit() == -1 ==> s.scale(k) == -k,
    ;
}

} // verus!
