//! Move application and board-control maps over one board, one history and
//! one set of rule tables.

use vstd::prelude::*;
use crate::board::board_history::{trail_of, BoardHistory};
use crate::board::board_slice::bumped_all;
use crate::board::Board;
use crate::implementations::board::standard_board::{
    initial_cell, reindexed, squares_with, StandardBoard,
};
use crate::movement::{grid_of, CaptureInterpreter, MobilityCalculator, PresenceCalculator};
use crate::piece::piece_id::{code_kind, PieceId};
use crate::piece::piece_pos::PiecePos;
use crate::piece::piece_set::{valid_squares, PieceSet};
use crate::piece::sign::Sign;
use crate::piece::Piece;

verus! {

/// A game in progress: the board, the history of its pieces, the rule
/// tables, and three presence boards that count for each square how often
/// the positive side, the negative side and both together contest it.
pub struct Game<T: Board, S: PieceSet> {
    pub board: T,
    pub positive_board_presence: T,
    pub negative_board_presence: T,
    pub overall_board_presence: T,
    pub history: BoardHistory,
    pub piece_set: S,
}

/// The squares that the piece on square `s` contests: what its rules give
/// under the coverage reading. An empty square contests nothing, and of
/// several squares that hold one piece only the square on which a lookup
/// finds the piece counts.
pub open spec fn coverage<B: Board, S: PieceSet>(
    board: B,
    trails: Map<(isize, usize), Seq<usize>>,
    set: S,
    s: int,
) -> Seq<usize> {
    if board.cells()[s].0 != 0 && board.position(board.cells()[s]) == Some(s as usize) {
        match valid_squares(
            set.rules(code_kind(board.cells()[s].0 as int)),
            PresenceCalculator.policy(),
            Sign::of(board.cells()[s].0 as int),
            board.cells()[s],
            Some(s as usize),
            grid_of(&board),
            trails,
        ) {
            Some(squares) => squares,
            None => Seq::empty(),
        }
    } else {
        Seq::empty()
    }
}

/// A presence board after the pieces on the first `n` squares were counted,
/// in index order: each counted piece adds the unit of its side to every
/// square it contests, once for each time it contests the square. The
/// flags say which sides are counted.
pub open spec fn tally<B: Board, S: PieceSet>(
    board: B,
    trails: Map<(isize, usize), Seq<usize>>,
    set: S,
    positive: bool,
    negative: bool,
    start: Seq<(isize, usize)>,
    n: int,
) -> Seq<(isize, usize)>
    decreases n,
{
    if n <= 0 {
        start
    } else if (positive && Sign::of(board.cells()[n - 1].0 as int) == Sign::Positive) || (negative
        && Sign::of(board.cells()[n - 1].0 as int) == Sign::Negative) {
        bumped_all(
            tally(board, trails, set, positive, negative, start, n - 1),
            coverage(board, trails, set, n - 1),
            Sign::of(board.cells()[n - 1].0 as int).unit(),
            coverage(board, trails, set, n - 1).len() as int,
        )
    } else {
        tally(board, trails, set, positive, negative, start, n - 1)
    }
}

/// The cells of a board on which nothing stands.
pub open spec fn empty_cells(n: nat) -> Seq<(isize, usize)> {
    Seq::new(n, |s: int| (0isize, 0usize))
}

impl<
    const T_ROW_SIZE: usize,
    const T_COL_SIZE: usize,
    const T_BOARD_SIZE: usize,
    P: Piece,
    S: PieceSet<PieceType = P>,
> Game<StandardBoard<T_ROW_SIZE, T_COL_SIZE, T_BOARD_SIZE, P>, S> {
    /// The four boards are well formed, and on the board of the game every
    /// occupied square agrees with the reverse index.
    pub open spec fn wf(&self) -> bool {
        &&& self.board.wf()
        &&& self.board.consistent()
        &&& self.positive_board_presence.wf()
        &&& self.negative_board_presence.wf()
        &&& self.overall_board_presence.wf()
    }

    /// A game on the board that the layout describes, in which no piece has
    /// moved and no square is counted as contested.
    pub fn new(initial_state: [isize; T_BOARD_SIZE], piece_set: S) -> (game: Self)
        requires
            T_ROW_SIZE * T_COL_SIZE == T_BOARD_SIZE,
            forall|s: int| 0 <= s < T_BOARD_SIZE ==> initial_state@[s] != isize::MIN,
        ensures
            game.wf(),
            game.piece_set == piece_set,
            game.history@ == Map::<(isize, usize), Seq<usize>>::empty(),
            game.board.cells().len() == T_BOARD_SIZE,
            forall|s: int|
                0 <= s < T_BOARD_SIZE ==> #[trigger] game.board.cells()[s] == initial_cell(
                    initial_state@,
                    s,
                ),
            forall|code: isize| #[trigger]
                game.board.helper.index().contains_key(code) <==> code != 0 && squares_with(
                    initial_state@,
                    code,
                    T_BOARD_SIZE as int,
                ).len() > 0,
            forall|code: isize| #[trigger]
                game.board.helper.index().contains_key(code) ==> game.board.helper.index()[code]
                    == squares_with(initial_state@, code, T_BOARD_SIZE as int),
            game.positive_board_presence.cells() == empty_cells(T_BOARD_SIZE as nat),
            game.negative_board_presence.cells() == empty_cells(T_BOARD_SIZE as nat),
            game.overall_board_presence.cells() == empty_cells(T_BOARD_SIZE as nat),
    {
        let board = StandardBoard::new(initial_state);
        let positive_board_presence = Self::empty_board();
        let negative_board_presence = Self::empty_board();
        let overall_board_presence = Self::empty_board();
        let history = BoardHistory::new(None);
        Game {
            board,
            positive_board_presence,
            negative_board_presence,
            overall_board_presence,
            history,
            piece_set,
        }
    }

    fn empty_board() -> (board: StandardBoard<T_ROW_SIZE, T_COL_SIZE, T_BOARD_SIZE, P>)
        requires
            T_ROW_SIZE * T_COL_SIZE == T_BOARD_SIZE,
        ensures
            board.wf(),
            board.cells() == empty_cells(T_BOARD_SIZE as nat),
    {
        let board = StandardBoard::new([0isize;T_BOARD_SIZE]);
        assert(board.cells() =~= empty_cells(T_BOARD_SIZE as nat));
        board
    }

    fn relocate(&mut self, id: &PieceId<P>, from: usize, square: usize)
        requires
            old(self).wf(),
            square < T_BOARD_SIZE,
            old(self).board.position(id.key()) == Some(from),
        ensures
            final(self).wf(),
            final(self).piece_set == old(self).piece_set,
            final(self).positive_board_presence == old(self).positive_board_presence,
            final(self).negative_board_presence == old(self).negative_board_presence,
            final(self).overall_board_presence == old(self).overall_board_presence,
            final(self).history@ == old(self).history@.insert(
                id.key(),
                trail_of(old(self).history@, id.key()).push(square),
            ),
            final(self).board.cells() == old(self).board.cells().update(
                from as int,
                (0isize, 0usize),
            ).update(square as int, id.key()),
            final(self).board.helper.index() == reindexed(
                reindexed(old(self).board.helper.index(), (0isize, 0usize), from),
                id.key(),
                square,
            ),
            final(self).board.position(id.key()) == Some(square),
    {
        proof {
            self.board.lemma_position(id.key());
            assert forall|s: int| 0 <= s < T_BOARD_SIZE && s != from implies self.board.cells()[s]
                != id.key() by {
                if self.board.cells()[s] == id.key() {
                    self.board.lemma_one_square_each(s, from as int);
                }
            }
        }
        self.history.push(id, &PiecePos(square, T_ROW_SIZE));
        self.board.set_square(&PieceId::default(), from);
        self.board.set_square(id, square);
    }

    /// Moves `id` to `square`, whatever stands there: the square is appended
    /// to the piece's trail, the square it came from is emptied, and the
    /// piece is placed. A piece without a position leaves the game as it is.
    pub fn move_piece(&mut self, id: &PieceId<P>, square: usize)
        requires
            old(self).wf(),
            square < T_BOARD_SIZE,
        ensures
            final(self).wf(),
            final(self).piece_set == old(self).piece_set,
            final(self).positive_board_presence == old(self).positive_board_presence,
            final(self).negative_board_presence == old(self).negative_board_presence,
            final(self).overall_board_presence == old(self).overall_board_presence,
            match old(self).board.position(id.key()) {
                Some(from) => {
                    &&& final(self).history@ == old(self).history@.insert(
                        id.key(),
                        trail_of(old(self).history@, id.key()).push(square),
                    )
                    &&& final(self).history@[id.key()].last() == square
                    &&& final(self).board.cells() == old(self).board.cells().update(
                        from as int,
                        (0isize, 0usize),
                    ).update(square as int, id.key())
                    &&& final(self).board.helper.index() == reindexed(
                        reindexed(old(self).board.helper.index(), (0isize, 0usize), from),
                        id.key(),
                        square,
                    )
                    &&& final(self).board.position(id.key()) == Some(square)
                },
                None => *final(self) == *old(self),
            },
    {
        match self.board.get_pos(id) {
            Some(old_pos) => {
                self.relocate(id, old_pos.u(), square);
            },
            None => {},
        }
    }

    /// Moves `id` by `distance` squares in index order, upwards for the
    /// positive side and downwards for the negative side. A piece without a
    /// position leaves the game as it is.
    pub fn move_piece_relative(&mut self, id: &PieceId<P>, distance: usize)
        requires
            old(self).wf(),
            old(self).board.position(id.key()) matches Some(from) ==> PiecePos(
                from,
                T_ROW_SIZE,
            ).moved(id.1.scale(distance as int)).0 < T_BOARD_SIZE,
        ensures
            final(self).wf(),
            final(self).piece_set == old(self).piece_set,
            final(self).positive_board_presence == old(self).positive_board_presence,
            final(self).negative_board_presence == old(self).negative_board_presence,
            final(self).overall_board_presence == old(self).overall_board_presence,
            match old(self).board.position(id.key()) {
                Some(from) => {
                    let square = PiecePos(from, T_ROW_SIZE).moved(id.1.scale(distance as int)).0;
                    &&& final(self).history@ == old(self).history@.insert(
                        id.key(),
                        trail_of(old(self).history@, id.key()).push(square),
                    )
                    &&& final(self).history@[id.key()].last() == square
                    &&& final(self).board.cells() == old(self).board.cells().update(
                        from as int,
                        (0isize, 0usize),
                    ).update(square as int, id.key())
                    &&& final(self).board.helper.index() == reindexed(
                        reindexed(old(self).board.helper.index(), (0isize, 0usize), from),
                        id.key(),
                        square,
                    )
                    &&& final(self).board.position(id.key()) == Some(square)
                },
                None => *final(self) == *old(self),
            },
    {
        match self.board.get_pos(id) {
            Some(old_pos) => {
                let relative_pos = old_pos.offset(id.sign(), distance);
                self.relocate(id, old_pos.u(), relative_pos.u());
            },
            None => {},
        }
    }

    /// Empties the three presence boards.
    pub fn clear_presence(&mut self)
        requires
            old(self).wf(),
        ensures
            final(self).wf(),
            final(self).board == old(self).board,
            final(self).history == old(self).history,
            final(self).piece_set == old(self).piece_set,
            final(self).positive_board_presence.cells() == empty_cells(T_BOARD_SIZE as nat),
            final(self).negative_board_presence.cells() == empty_cells(T_BOARD_SIZE as nat),
            final(self).overall_board_presence.cells() == empty_cells(T_BOARD_SIZE as nat),
    {
        self.positive_board_presence.clear();
        self.negative_board_presence.clear();
        self.overall_board_presence.clear();
    }

    /// Empties the board and forgets every trail.
    pub fn clear_state(&mut self)
        requires
            old(self).wf(),
        ensures
            final(self).wf(),
            final(self).board.cells() == empty_cells(T_BOARD_SIZE as nat),
            final(self).history@ == Map::<(isize, usize), Seq<usize>>::empty(),
            final(self).piece_set == old(self).piece_set,
            final(self).positive_board_presence == old(self).positive_board_presence,
            final(self).negative_board_presence == old(self).negative_board_presence,
            final(self).overall_board_presence == old(self).overall_board_presence,
    {
        self.board.clear();
        self.history.clear();
    }

    /// Empties the board and forgets every trail.
    pub fn clear(&mut self)
        requires
            old(self).wf(),
        ensures
            final(self).wf(),
            final(self).board.cells() == empty_cells(T_BOARD_SIZE as nat),
            final(self).history@ == Map::<(isize, usize), Seq<usize>>::empty(),
            final(self).piece_set == old(self).piece_set,
            final(self).positive_board_presence == old(self).positive_board_presence,
            final(self).negative_board_presence == old(self).negative_board_presence,
            final(self).overall_board_presence == old(self).overall_board_presence,
    {
        self.clear_state();
    }

    /// Empties the four boards and forgets every trail.
    pub fn clear_all(&mut self)
        requires
            old(self).wf(),
        ensures
            final(self).wf(),
            final(self).board.cells() == empty_cells(T_BOARD_SIZE as nat),
            final(self).history@ == Map::<(isize, usize), Seq<usize>>::empty(),
            final(self).piece_set == old(self).piece_set,
            final(self).positive_board_presence.cells() == empty_cells(T_BOARD_SIZE as nat),
            final(self).negative_board_presence.cells() == empty_cells(T_BOARD_SIZE as nat),
            final(self).overall_board_presence.cells() == empty_cells(T_BOARD_SIZE as nat),
    {
        self.clear_presence();
        self.clear_state();
    }

    /// Counts on the presence boards the squares that each piece on the
    /// board contests: on the positive board one more for each square that a
    /// piece of the positive side contests, on the negative board one less
    /// for each square that a piece of the negative side contests, and on
    /// the overall board both. The counts are added to what the presence
    /// boards hold.
    pub fn calculate_presence(&mut self)
        requires
            old(self).wf(),
        ensures
            final(self).wf(),
            final(self).board == old(self).board,
            final(self).history == old(self).history,
            final(self).piece_set == old(self).piece_set,
            final(self).positive_board_presence.cells() == tally(
                old(self).board,
                old(self).history@,
                old(self).piece_set,
                true,
                false,
                old(self).positive_board_presence.cells(),
                T_BOARD_SIZE as int,
            ),
            final(self).negative_board_presence.cells() == tally(
                old(self).board,
                old(self).history@,
                old(self).piece_set,
                false,
                true,
                old(self).negative_board_presence.cells(),
                T_BOARD_SIZE as int,
            ),
            final(self).overall_board_presence.cells() == tally(
                old(self).board,
                old(self).history@,
                old(self).piece_set,
                true,
                true,
                old(self).overall_board_presence.cells(),
                T_BOARD_SIZE as int,
            ),
    {
        let mut s: usize = 0;
        while s < T_BOARD_SIZE
            invariant
                s <= T_BOARD_SIZE,
                self.wf(),
                self.board == old(self).board,
                self.history == old(self).history,
                self.piece_set == old(self).piece_set,
                self.positive_board_presence.cells() == tally(
                    self.board,
                    self.history@,
                    self.piece_set,
                    true,
                    false,
                    old(self).positive_board_presence.cells(),
                    s as int,
                ),
                self.negative_board_presence.cells() == tally(
                    self.board,
                    self.history@,
                    self.piece_set,
                    false,
                    true,
                    old(self).negative_board_presence.cells(),
                    s as int,
                ),
                self.overall_board_presence.cells() == tally(
                    self.board,
                    self.history@,
                    self.piece_set,
                    true,
                    true,
                    old(self).overall_board_presence.cells(),
                    s as int,
                ),
            decreases T_BOARD_SIZE - s,
        {
            match self.board.get_id_not_none(&PiecePos(s, T_ROW_SIZE)) {
                Some(id) => {
                    let found_here = match self.board.get_pos(&id) {
                        Some(pos) => pos.u() == s,
                        None => false,
                    };
                    if found_here {
                        let mut calculator = PresenceCalculator::new();
                        let slice = self.piece_set.valid_slice(
                            &mut calculator,
                            &id,
                            &self.board,
                            &self.history,
                        );
                        match id.sign() {
                            Sign::Positive => {
                                slice.add(1, &mut self.positive_board_presence);
                                slice.add(1, &mut self.overall_board_presence);
                            },
                            Sign::Negative => {
                                slice.subtract(1, &mut self.negative_board_presence);
                                slice.subtract(1, &mut self.overall_board_presence);
                            },
                            Sign::Neutral => {},
                        }
                    }
                },
                None => {},
            }
            s += 1;
        }
    }

    fn snapshot(board: &StandardBoard<T_ROW_SIZE, T_COL_SIZE, T_BOARD_SIZE, P>) -> (rows: Vec<
        [isize; T_ROW_SIZE],
    >)
        requires
            board.wf(),
        ensures
            shows(rows@, board.cells(), T_ROW_SIZE as int, T_COL_SIZE as int),
    {
        let mut rows: Vec<[isize; T_ROW_SIZE]> = Vec::new();
        let mut r: usize = 0;
        while r < T_COL_SIZE
            invariant
                r <= T_COL_SIZE,
                board.wf(),
                shows(rows@, board.cells(), T_ROW_SIZE as int, r as int),
            decreases T_COL_SIZE - r,
        {
            rows.push(board.row(r));
            r += 1;
        }
        rows
    }

    /// The board, row by row, as signed codes.
    pub fn visualize_board(&self) -> (rows: Vec<[isize; T_ROW_SIZE]>)
        requires
            self.wf(),
        ensures
            shows(rows@, self.board.cells(), T_ROW_SIZE as int, T_COL_SIZE as int),
    {
        Self::snapshot(&self.board)
    }

    /// The positive, the negative and the overall presence board, each row
    /// by row, as counts.
    pub fn visualize_presence(&self) -> (boards: (
        Vec<[isize; T_ROW_SIZE]>,
        Vec<[isize; T_ROW_SIZE]>,
        Vec<[isize; T_ROW_SIZE]>,
    ))
        requires
            self.wf(),
        ensures
            shows(
                boards.0@,
                self.positive_board_presence.cells(),
                T_ROW_SIZE as int,
                T_COL_SIZE as int,
            ),
            shows(
                boards.1@,
                self.negative_board_presence.cells(),
                T_ROW_SIZE as int,
                T_COL_SIZE as int,
            ),
            shows(
                boards.2@,
                self.overall_board_presence.cells(),
                T_ROW_SIZE as int,
                T_COL_SIZE as int,
            ),
    {
        (
            Self::snapshot(&self.positive_board_presence),
            Self::snapshot(&self.negative_board_presence),
            Self::snapshot(&self.overall_board_presence),
        )
    }

    /// An otherwise empty board, row by row, on which every square that `id`
    /// may move to shows the signed code of `id`, added once for each rule
    /// that leads there.
    pub fn visualize_moves(&self, id: &PieceId<P>) -> (rows: Vec<[isize; T_ROW_SIZE]>)
        requires
            self.wf(),
        ensures
            shows(
                rows@,
                bumped_all(
                    empty_cells(T_BOARD_SIZE as nat),
                    self.reachable(id),
                    id.code(),
                    self.reachable(id).len() as int,
                ),
                T_ROW_SIZE as int,
                T_COL_SIZE as int,
            ),
    {
        let mut mirror = Self::empty_board();
        let mut calculator = MobilityCalculator;
        let slice = self.piece_set.valid_slice(&mut calculator, id, &self.board, &self.history);
        slice.add(id.i(), &mut mirror);
        Self::snapshot(&mirror)
    }

    /// The squares that `id` may move to, rule by rule in table order.
    pub open spec fn reachable(&self, id: &PieceId<P>) -> Seq<usize> {
        match valid_squares(
            self.piece_set.rules(id.0.value()),
            MobilityCalculator.policy(),
            id.1,
            id.key(),
            self.board.position(id.key()),
            grid_of(&self.board),
            self.history@,
        ) {
            Some(squares) => squares,
            None => Seq::empty(),
        }
    }
}

/// Whether `rows` are the first `n` rows of the cells, as signed codes: row
/// `r` holds in column `k` the code of square `r * row_size + k`.
pub open spec fn shows<const T_ROW_SIZE: usize>(
    rows: Seq<[isize; T_ROW_SIZE]>,
    cells: Seq<(isize, usize)>,
    row_size: int,
    n: int,
) -> bool {
    &&& rows.len() == n
    &&& forall|r: int, k: int|
        0 <= r < n && 0 <= k < row_size ==> (#[trigger] rows[r]@[k]) == cells[r * row_size + k].0
}

} // verus!
