//! An ordered list of squares: a trail, or the squares that a piece may reach.

use vstd::prelude::*;
use crate::board::Board;
use crate::implementations::board::standard_board::StandardBoard;
use crate::piece::Piece;
use crate::piece::piece_id::PieceId;
use crate::piece::piece_pos::PiecePos;

verus! {

/// A sum of signed codes, held at the largest or smallest code where it
/// would leave the range of codes.
pub open spec fn saturate(i: int) -> isize {
    if i > isize::MAX {
        isize::MAX
    } else if i < -isize::MAX {
        (-isize::MAX) as isize
    } else {
        i as isize
    }
}

/// The cells after `amount` was added to the code on `square`, which then
/// has version `0`. A square off the board changes nothing.
pub open spec fn bumped(cells: Seq<(isize, usize)>, square: usize, amount: int) -> Seq<
    (isize, usize),
> {
    if square < cells.len() {
        cells.update(square as int, (saturate(cells[square as int].0 + amount), 0usize))
    } else {
        cells
    }
}

/// The cells after `amount` was added on each of the first `n` of `squares`
/// in turn; a square that occurs twice is bumped twice.
pub open spec fn bumped_all(
    cells: Seq<(isize, usize)>,
    squares: Seq<usize>,
    amount: int,
    n: int,
) -> Seq<(isize, usize)>
    decreases n,
{
    if n <= 0 {
        cells
    } else {
        bumped(bumped_all(cells, squares, amount, n - 1), squares[n - 1], amount)
    }
}

/// How often a square occurs among the first `n` of `squares`.
pub open spec fn occurrences(squares: Seq<usize>, square: usize, n: int) -> nat
    decreases n,
{
    if n <= 0 {
        0
    } else if n <= squares.len() && squares[n - 1] == square {
        occurrences(squares, square, n - 1) + 1
    } else {
        occurrences(squares, square, n - 1)
    }
}

/// Bumping keeps the number of squares. A square that does not occur keeps
/// its cell. A square that occurs ends with version `0` and with its code
/// plus the amount times the number of its occurrences, as long as that sum
/// is a signed code.
pub proof fn lemma_bumped_all_adds_up(
    cells: Seq<(isize, usize)>,
    squares: Seq<usize>,
    amount: int,
    n: int,
    square: usize,
)
    requires
        0 <= n <= squares.len(),
        square < cells.len(),
        -isize::MAX <= cells[square as int].0,
        -isize::MAX <= cells[square as int].0 + amount * occurrences(squares, square, n)
            <= isize::MAX,
    ensures
        bumped_all(cells, squares, amount, n).len() == cells.len(),
        bumped_all(cells, squares, amount, n)[square as int] == if occurrences(squares, square, n)
            == 0 {
            cells[square as int]
        } else {
            ((cells[square as int].0 + amount * occurrences(squares, square, n)) as isize, 0usize)
        },
    decreases n,
{
    if n > 0 {
        let code = cells[square as int].0 as int;
        let now = occurrences(squares, square, n) as int;
        let before = occurrences(squares, square, n - 1) as int;
        assert(-isize::MAX <= code + amount * before <= isize::MAX && amount * before + amount
            == amount * (before + 1)) by (nonlinear_arith)
            requires
                0 <= before <= now,
                -isize::MAX <= code <= isize::MAX,
                -isize::MAX <= code + amount * now <= isize::MAX,
        ;
        lemma_bumped_all_adds_up(cells, squares, amount, n - 1, square);
        lemma_bumped_all_keeps_length(cells, squares, amount, n - 1);
        let earlier = bumped_all(cells, squares, amount, n - 1);
        assert(bumped_all(cells, squares, amount, n) == bumped(earlier, squares[n - 1], amount));
        if squares[n - 1] == square {
            assert(now == before + 1);
            assert(earlier[square as int].0 == code + amount * before);
            assert(earlier[square as int].0 + amount == code + amount * now);
            assert(saturate(code + amount * now) == code + amount * now);
        } else {
            assert(now == before);
        }
    }
}

/// Bumping keeps the number of squares.
pub proof fn lemma_bumped_all_keeps_length(
    cells: Seq<(isize, usize)>,
    squares: Seq<usize>,
    amount: int,
    n: int,
)
    ensures
        bumped_all(cells, squares, amount, n).len() == cells.len(),
    decreases n,
{
    if n > 0 {
        lemma_bumped_all_keeps_length(cells, squares, amount, n - 1);
    }
}

/// An ordered list of squares; a square may occur more than once.
#[derive(Debug)]
pub struct BoardSlice(pub Vec<usize>);

impl View for BoardSlice {
    type V = Seq<usize>;

    open spec fn view(&self) -> Seq<usize> {
        self.0@
    }
}

impl BoardSlice {
    /// The given squares, or the empty list.
    pub fn new(default: Option<Vec<usize>>) -> (slice: Self)
        ensures
            slice@ == match default {
                Some(squares) => squares@,
                None => Seq::<usize>::empty(),
            },
    {
        match default {
            Some(n) => BoardSlice(n),
            None => BoardSlice(Vec::new()),
        }
    }

    /// The squares of the slice.
    pub fn inner(&self) -> (squares: &Vec<usize>)
        ensures
            squares@ == self@,
    {
        &self.0
    }

    /// The last square of the slice, if it has one.
    pub fn last(&self) -> (square: Option<usize>)
        ensures
            square == if self@.len() == 0 {
                None
            } else {
                Some(self@.last())
            },
    {
        if self.0.len() == 0 {
            None
        } else {
            Some(self.0[self.0.len() - 1])
        }
    }

    /// Appends a square.
    pub fn push(&mut self, pos: usize)
        ensures
            final(self)@ == old(self)@.push(pos),
    {
        self.0.push(pos);
    }

    fn bump<B: Board>(&self, amount: i128, board: &mut B)
        requires
            old(board).wf(),
            -0x8000_0000_0000_0000 <= amount <= 0x8000_0000_0000_0000,
        ensures
            final(board).wf(),
            final(board).row_size() == old(board).row_size(),
            final(board).col_size() == old(board).col_size(),
            final(board).cells() == bumped_all(
                old(board).cells(),
                self@,
                amount as int,
                self@.len() as int,
            ),
    {
        let ghost start = board.cells();
        let row = board.get_row_size();
        let mut i: usize = 0;
        while i < self.0.len()
            invariant
                i <= self.0.len(),
                board.wf(),
                board.row_size() == old(board).row_size(),
                board.col_size() == old(board).col_size(),
                start == old(board).cells(),
                -0x8000_0000_0000_0000 <= amount <= 0x8000_0000_0000_0000,
                board.cells() == bumped_all(start, self@, amount as int, i as int),
            decreases self.0.len() - i,
        {
            let v = self.0[i];
            match board.get_id(&PiecePos(v, row)) {
                Some(existing) => {
                    let sum: i128 = existing.i() as i128 + amount;
                    let fill: isize = if sum > isize::MAX as i128 {
                        isize::MAX
                    } else if sum < -(isize::MAX as i128) {
                        -isize::MAX
                    } else {
                        sum as isize
                    };
                    board.set_square(&PieceId::<B::PieceType>::from_code(fill, 0), v);
                },
                None => {},
            }
            i += 1;
        }
    }

    /// Adds `amount` to the signed code on each square of the slice, once
    /// for each time the square occurs.
    pub fn add<B: Board>(&self, amount: isize, board: &mut B)
        requires
            old(board).wf(),
        ensures
            final(board).wf(),
            final(board).row_size() == old(board).row_size(),
            final(board).col_size() == old(board).col_size(),
            final(board).cells() == bumped_all(
                old(board).cells(),
                self@,
                amount as int,
                self@.len() as int,
            ),
    {
        self.bump(amount as i128, board);
    }

    /// Takes `amount` from the signed code on each square of the slice, once
    /// for each time the square occurs.
    pub fn subtract<B: Board>(&self, amount: isize, board: &mut B)
        requires
            old(board).wf(),
        ensures
            final(board).wf(),
            final(board).row_size() == old(board).row_size(),
            final(board).col_size() == old(board).col_size(),
            final(board).cells() == bumped_all(
                old(board).cells(),
                self@,
                -(amount as int),
                self@.len() as int,
            ),
    {
        self.bump(-(amount as i128), board);
    }

    /// An otherwise empty board that holds `fill` on every square of the
    /// slice.
    pub fn visualize<
        const T_ROW_SIZE: usize,
        const T_COL_SIZE: usize,
        const T_BOARD_SIZE: usize,
        P: Piece,
    >(&self, fill: isize) -> (visual: StandardBoard<T_ROW_SIZE, T_COL_SIZE, T_BOARD_SIZE, P>)
        requires
            T_ROW_SIZE * T_COL_SIZE == T_BOARD_SIZE,
            fill != isize::MIN,
            forall|i: int| 0 <= i < self@.len() ==> self@[i] < T_BOARD_SIZE,
        ensures
            visual.wf(),
            visual.cells() == Seq::new(
                T_BOARD_SIZE as nat,
                |s: int|
                    if self@.contains(s as usize) {
                        (fill, 0usize)
                    } else {
                        (0isize, 0usize)
                    },
            ),
    {
        let mut visual = StandardBoard::<T_ROW_SIZE, T_COL_SIZE, T_BOARD_SIZE, P>::new(
            [0isize;T_BOARD_SIZE],
        );
        let mut i: usize = 0;
        while i < self.0.len()
            invariant
                i <= self.0.len(),
                visual.wf(),
                fill != isize::MIN,
                forall|i: int| 0 <= i < self@.len() ==> self@[i] < T_BOARD_SIZE,
                visual.cells() == Seq::new(
                    T_BOARD_SIZE as nat,
                    |s: int|
                        if self@.take(i as int).contains(s as usize) {
                            (fill, 0usize)
                        } else {
                            (0isize, 0usize)
                        },
                ),
            decreases self.0.len() - i,
        {
            let v = self.0[i];
            let ghost before = self@.take(i as int);
            visual.set_square(&PieceId::from_code(fill, 0), v);
            proof {
                assert(self@.take(i + 1) == before.push(v));
                assert forall|q: usize| #[trigger]
                    before.push(v).contains(q) <==> before.contains(q) || q == v by {
                    if before.contains(q) {
                        let j = choose|j: int| 0 <= j < before.len() && before[j] == q;
                        assert(before.push(v)[j] == q);
                    }
                    if q == v {
                        assert(before.push(v)[before.len() as int] == v);
                    }
                }
            }
            i += 1;
        }
        assert(self@.take(self@.len() as int) == self@);
        visual
    }
}

} // verus!
