//! A square of a board together with the row length that gives it neighbours.

use vstd::prelude::*;
use crate::board::Board;
use crate::piece::sign::Sign;

verus! {

/// A square index and the number of squares in a row of its board.
#[derive(Clone, Copy, PartialEq, Eq, Structural, Debug)]
pub struct PiecePos(pub usize, pub usize);

/// An index brought back into the range of `usize` by one wrap-around.
pub open spec fn wrap(i: int) -> int {
    if i > usize::MAX {
        i - (usize::MAX + 1)
    } else if i < 0 {
        i + (usize::MAX + 1)
    } else {
        i
    }
}

/// Whether the column `x` and the row `y` name a square of a grid.
pub open spec fn in_bounds(x: int, y: int, row_size: nat, col_size: nat) -> bool {
    0 <= x < row_size && 0 <= y < col_size
}

impl PiecePos {
    /// The position `delta` squares further in index order, wrapping around
    /// at the ends of the index range; such a square lies on no board.
    pub open spec fn moved(self, delta: int) -> PiecePos {
        PiecePos(wrap(self.0 + delta) as usize, self.1)
    }

    /// The square index.
    pub fn u(&self) -> (square: usize)
        ensures
            square == self.0,
    {
        self.0
    }

    /// Whether the column `x` and the row `y` name a square of the board.
    pub fn is_inbounds<B: Board>(x: isize, y: isize, board: &B) -> (b: bool)
        requires
            board.wf(),
        ensures
            b == in_bounds(x as int, y as int, board.row_size(), board.col_size()),
    {
        x >= 0 && (x as usize) < board.get_row_size() && y >= 0 && (y as usize)
            < board.get_col_size()
    }

    /// The square in column `x` of row `y`.
    pub fn from_xy<B: Board>(x: isize, y: isize, board: &B) -> (pos: PiecePos)
        requires
            board.wf(),
            in_bounds(x as int, y as int, board.row_size(), board.col_size()),
        ensures
            pos.0 == x + y * board.row_size(),
            pos.0 < board.cells().len(),
            pos.1 == board.row_size(),
    {
        let row = board.get_row_size();
        proof {
            board.lemma_wf();
            lemma_square_on_grid(x as int, y as int, board.row_size(), board.col_size());
        }
        PiecePos(x as usize + y as usize * row, row)
    }

    /// The column and the row of the square.
    pub fn xy(&self) -> (c: (usize, usize))
        requires
            self.1 > 0,
        ensures
            c.0 == self.0 % self.1,
            c.1 == self.0 / self.1,
    {
        (self.0 % self.1, self.0 / self.1)
    }

    fn shifted(&self, sign: Sign, amount: usize) -> (pos: PiecePos)
        ensures
            pos == self.moved(sign.scale(amount as int)),
    {
        match sign {
            Sign::Neutral => PiecePos(self.0, self.1),
            Sign::Positive => PiecePos(self.0.wrapping_add(amount), self.1),
            Sign::Negative => PiecePos(self.0.wrapping_sub(amount), self.1),
        }
    }

    /// One row towards the far side of `sign`.
    pub fn top(&self, sign: Sign) -> (pos: PiecePos)
        ensures
            pos == self.moved(sign.scale(self.1 as int)),
    {
        self.shifted(sign, self.1)
    }

    /// One row towards the near side of `sign`.
    pub fn bottom(&self, sign: Sign) -> (pos: PiecePos)
        ensures
            pos == self.moved(-sign.scale(self.1 as int)),
    {
        self.shifted(sign.negate(), self.1)
    }

    /// One square down the index order as `sign` sees it.
    pub fn left(&self, sign: Sign) -> (pos: PiecePos)
        ensures
            pos == self.moved(-sign.scale(1)),
    {
        self.shifted(sign.negate(), 1)
    }

    /// One square up the index order as `sign` sees it.
    pub fn right(&self, sign: Sign) -> (pos: PiecePos)
        ensures
            pos == self.moved(sign.scale(1)),
    {
        self.shifted(sign, 1)
    }

    /// One row towards the far side of `sign`, then one square down the
    /// index order.
    pub fn topleft(&self, sign: Sign) -> (pos: PiecePos)
        ensures
            pos == self.moved(sign.scale(self.1 as int)).moved(-1),
    {
        self.top(sign).shifted(Sign::Negative, 1)
    }

    /// One row towards the far side of `sign`, then one square up the index
    /// order.
    pub fn topright(&self, sign: Sign) -> (pos: PiecePos)
        ensures
            pos == self.moved(sign.scale(self.1 as int)).moved(1),
    {
        self.top(sign).shifted(Sign::Positive, 1)
    }

    /// One row towards the near side of `sign`, then one square down the
    /// index order.
    pub fn bottomleft(&self, sign: Sign) -> (pos: PiecePos)
        ensures
            pos == self.moved(-sign.scale(self.1 as int)).moved(-1),
    {
        self.bottom(sign).shifted(Sign::Negative, 1)
    }

    /// One row towards the near side of `sign`, then one square up the
    /// index order.
    pub fn bottomright(&self, sign: Sign) -> (pos: PiecePos)
        ensures
            pos == self.moved(-sign.scale(self.1 as int)).moved(1),
    {
        self.bottom(sign).shifted(Sign::Positive, 1)
    }

    /// `other` squares up the index order as `sign` sees it.
    pub fn offset(&self, sign: Sign, other: usize) -> (pos: PiecePos)
        ensures
            pos == self.moved(sign.scale(other as int)),
    {
        self.shifted(sign, other)
    }
}

/// A column and a row of a grid name a square of that grid.
pub proof fn lemma_square_on_grid(x: int, y: int, row_size: nat, col_size: nat)
    requires
        in_bounds(x, y, row_size, col_size),
    ensures
        0 <= y * row_size,
        0 <= x + y * row_size < row_size * col_size,
        (x + y * row_size) % (row_size as int) == x,
        (x + y * row_size) / (row_size as int) == y,
{
    assert(0 <= y * row_size && (y + 1) * row_size <= col_size * row_size && (y + 1) * row_size
        == y * row_size + row_size && col_size * row_size == row_size * col_size)
        by (nonlinear_arith)
        requires
            0 <= y < col_size,
            0 <= row_size,
    ;
    vstd::arithmetic::div_mod::lemma_fundamental_div_mod_converse(
        x + y * row_size,
        row_size as int,
        y,
        x,
    );
}

} // verus!
