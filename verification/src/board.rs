//! Board addressing and storage: what a board is to the rest of the engine.

use vstd::prelude::*;
use crate::board::board_slice::BoardSlice;
use crate::piece::Piece;
use crate::piece::piece_id::{code_kind, PieceId};
use crate::piece::piece_pos::PiecePos;
use crate::piece::sign::{lemma_sign_algebra, Sign};

pub mod board_history;
pub mod board_slice;

verus! {

/// The lowest square below `n` that holds `key`, if there is one.
pub open spec fn first_holding(cells: Seq<(isize, usize)>, key: (isize, usize), n: int) -> Option<
    usize,
>
    decreases n,
{
    if n <= 0 {
        None
    } else {
        match first_holding(cells, key, n - 1) {
            Some(s) => Some(s),
            None => if n <= cells.len() && cells[n - 1] == key {
                Some((n - 1) as usize)
            } else {
                None
            },
        }
    }
}

/// The squares below `n` that hold a piece, in ascending order.
pub open spec fn occupied_squares(cells: Seq<(isize, usize)>, n: int) -> Seq<usize>
    decreases n,
{
    if n <= 0 {
        Seq::empty()
    } else if n <= cells.len() && cells[n - 1].0 != 0 {
        occupied_squares(cells, n - 1).push((n - 1) as usize)
    } else {
        occupied_squares(cells, n - 1)
    }
}

/// The squares below `n` whose signed code is one of `codes`, in ascending order.
pub open spec fn squares_coded(cells: Seq<(isize, usize)>, codes: Seq<int>, n: int) -> Seq<usize>
    decreases n,
{
    if n <= 0 {
        Seq::empty()
    } else if n <= cells.len() && codes.contains(cells[n - 1].0 as int) {
        squares_coded(cells, codes, n - 1).push((n - 1) as usize)
    } else {
        squares_coded(cells, codes, n - 1)
    }
}

/// Whether `id` is the identity that a cell stands for: the kind and the side
/// that the cell's signed code carries, with the cell's version.
pub open spec fn holds_cell<T: Piece>(id: PieceId<T>, cell: (isize, usize)) -> bool {
    &&& id == PieceId(T::of_value(code_kind(cell.0 as int)), Sign::of(cell.0 as int), cell.1)
    &&& id.key() == cell
    &&& id.0.value() == code_kind(cell.0 as int)
}

/// The identity read from the square of a piece is that piece, if the piece
/// has a signed code other than `0` and its kind is the kind that its value
/// names.
pub proof fn lemma_reads_back<T: Piece>(id: PieceId<T>, read: PieceId<T>)
    requires
        holds_cell(read, id.key()),
        id.key().0 != 0,
        id.0 == T::of_value(id.0.value()),
    ensures
        read == id,
{
    id.lemma_code_in_range();
    id.0.lemma_value_in_range();
    lemma_sign_algebra(id.1, id.0.value());
}

/// A rectangular grid of squares, indexed row by row. Each square holds the
/// key of its occupant: a signed code, `0` for an empty square, and a version.
pub trait Board {
    type PieceType: Piece;

    /// The board's own invariant; every method needs it and keeps it.
    spec fn wf(&self) -> bool;

    /// The number of squares in a row.
    spec fn row_size(&self) -> nat;

    /// The number of squares in a column.
    spec fn col_size(&self) -> nat;

    /// The key held by each square, in index order.
    spec fn cells(&self) -> Seq<(isize, usize)>;

    /// The square at which a lookup finds the piece with the given key.
    spec fn position(&self, key: (isize, usize)) -> Option<usize>;

    /// The squares are the grid, and no square holds a code without a kind.
    proof fn lemma_wf(&self)
        requires
            self.wf(),
        ensures
            self.row_size() * self.col_size() == self.cells().len(),
            self.cells().len() <= usize::MAX,
            forall|s: int|
                0 <= s < self.cells().len() ==> (#[trigger] self.cells()[s]).0 != isize::MIN,
    ;

    /// A lookup finds a piece on a square that holds it, and fails only for
    /// the empty code or a piece that no square holds.
    proof fn lemma_position(&self, key: (isize, usize))
        requires
            self.wf(),
        ensures
            self.position(key) matches Some(p) ==> p < self.cells().len() && self.cells()[p as int]
                == key && key.0 != 0,
            self.position(key) is None ==> key.0 == 0 || forall|s: int|
                0 <= s < self.cells().len() ==> #[trigger] self.cells()[s] != key,
    ;

    /// The number of squares in a row.
    fn get_row_size(&self) -> (n: usize)
        requires
            self.wf(),
        ensures
            n == self.row_size(),
    ;

    /// The number of squares in a column.
    fn get_col_size(&self) -> (n: usize)
        requires
            self.wf(),
        ensures
            n == self.col_size(),
    ;

    /// The number of squares.
    fn get_board_size(&self) -> (n: usize)
        requires
            self.wf(),
        ensures
            n == self.cells().len(),
    ;

    /// The squares that hold a piece whose signed code is that of one of `ids`.
    fn piece_slice(&self, ids: &[PieceId<Self::PieceType>]) -> (slice: BoardSlice)
        requires
            self.wf(),
        ensures
            slice@ == squares_coded(
                self.cells(),
                Seq::new(ids@.len(), |i: int| ids@[i].code()),
                self.cells().len() as int,
            ),
    ;

    /// The occupied squares, in ascending order.
    fn get_slice(&self) -> (slice: BoardSlice)
        requires
            self.wf(),
        ensures
            slice@ == occupied_squares(self.cells(), self.cells().len() as int),
    ;

    /// The occupant of a square, the empty identity for an empty square, and
    /// nothing for a square off the board.
    fn get_id(&self, pos: &PiecePos) -> (r: Option<PieceId<Self::PieceType>>)
        requires
            self.wf(),
        ensures
            pos.0 >= self.cells().len() ==> r is None,
            pos.0 < self.cells().len() ==> (r matches Some(id) && holds_cell(
                id,
                self.cells()[pos.0 as int],
            )),
    ;

    /// The occupant of a square, and nothing for an empty square or a square
    /// off the board.
    fn get_id_not_none(&self, pos: &PiecePos) -> (r: Option<PieceId<Self::PieceType>>)
        requires
            self.wf(),
        ensures
            r is Some <==> pos.0 < self.cells().len() && self.cells()[pos.0 as int].0 != 0,
            r matches Some(id) ==> holds_cell(id, self.cells()[pos.0 as int]),
    ;

    /// The square that holds `id`, and nothing for an identity with the empty
    /// code or one that no square holds.
    fn get_pos(&self, id: &PieceId<Self::PieceType>) -> (r: Option<PiecePos>)
        requires
            self.wf(),
        ensures
            r == match self.position(id.key()) {
                Some(p) => Some(PiecePos(p, self.row_size() as usize)),
                None => None,
            },
            r matches Some(pos) ==> pos.0 < self.cells().len() && self.cells()[pos.0 as int]
                == id.key() && id.key().0 != 0,
            r is None ==> id.key().0 == 0 || forall|s: int|
                0 <= s < self.cells().len() ==> #[trigger] self.cells()[s] != id.key(),
    ;

    /// Places `id` on `square`. No other square changes: the square that the
    /// piece came from keeps it until the caller clears it.
    fn set_square(&mut self, id: &PieceId<Self::PieceType>, square: usize)
        requires
            old(self).wf(),
            square < old(self).cells().len(),
        ensures
            final(self).wf(),
            final(self).row_size() == old(self).row_size(),
            final(self).col_size() == old(self).col_size(),
            final(self).cells() == old(self).cells().update(square as int, id.key()),
    ;

    /// Empties every square.
    fn clear(&mut self)
        requires
            old(self).wf(),
        ensures
            final(self).wf(),
            final(self).row_size() == old(self).row_size(),
            final(self).col_size() == old(self).col_size(),
            final(self).cells() == Seq::new(old(self).cells().len(), |s: int| (0isize, 0usize)),
    ;
}

} // verus!
