//! Movement rules: unconditional ones, and ones that exist only while the
//! board and the history meet a condition.

use vstd::prelude::*;
use crate::board::{holds_cell, Board};
use crate::board::board_history::BoardHistory;
use crate::movement::can_capture::CanCapture;
use crate::movement::{grid_of, Grid, Move};
use crate::piece::Piece;
use crate::piece::piece_id::{code_kind, PieceId};
use crate::piece::piece_pos::{in_bounds, lemma_square_on_grid, PiecePos};
use crate::piece::sign::Sign;

verus! {

/// A direction along the index order, as the moving side sees it: for the
/// positive side `Left` leads to lower squares, for the negative side to
/// higher ones.
#[derive(Clone, Copy, PartialEq, Eq, Structural, Debug)]
pub enum Direction {
    Left,
    Right,
}

/// The built-in forms of a rule that yields a move only while a condition
/// holds: those that the chess pieces need.
#[derive(Clone, Copy, PartialEq, Eq, Structural, Debug)]
pub enum StandardRule {
    /// While the piece has never moved and the square one step along
    /// `(x, y)` is empty: a single leap of two such steps, without capture.
    FirstLeap { x: isize, y: isize },
    /// While the square one step along `(x, y)` holds an opposing piece: that
    /// step, capturing.
    Attack { x: isize, y: isize },
    /// While the square `x` columns aside holds an opposing piece of the
    /// given kind that has moved exactly once, to that square, and stands two
    /// rows beyond the row `home` of its own side: the diagonal step past it,
    /// without capture.
    Passing { x: isize, kind: isize, home: usize },
    /// While the nearest piece in `direction` is an unmoved piece of the own
    /// side and of kind `partner`, and the piece itself is unmoved: a single
    /// leap of `distance` columns, without capture.
    CastleJump { direction: Direction, partner: isize, distance: isize },
    /// Under the same condition: a single leap over all the empty squares in
    /// between, to the square next to the partner's.
    CastleBeside { direction: Direction, partner: isize },
}

/// A rule that yields a move only while the board and the history meet a
/// condition of its own.
pub trait ConditionalRule: Copy {
    /// The move that the rule yields for a mover that a lookup finds on
    /// `position`, or nothing while its condition does not hold.
    spec fn resolved(
        self,
        mover: Sign,
        key: (isize, usize),
        position: Option<usize>,
        grid: Grid,
        trails: Map<(isize, usize), Seq<usize>>,
    ) -> Option<(Move, CanCapture)>;

    /// The move that the rule yields for `id` on this board with this
    /// history, or nothing while its condition does not hold.
    fn try_resolve<P: Piece, B: Board<PieceType = P>>(
        &self,
        id: &PieceId<P>,
        board: &B,
        history: &BoardHistory,
    ) -> (resolved: Option<(Move, CanCapture)>)
        requires
            board.wf(),
        ensures
            resolved == self.resolved(
                id.1,
                id.key(),
                board.position(id.key()),
                grid_of(board),
                history@,
            ),
    ;
}

/// A movement rule of a piece kind, with conditional rules of the form `R`.
#[derive(Clone, Copy, PartialEq, Eq, Structural, Debug)]
pub enum CanMove<R> {
    /// The move always exists.
    Free(Move, CanCapture),
    /// The move exists while its condition holds.
    Conditional(R),
}

impl Grid {
    /// The square `x` columns and `y` rows away from `from`, if it lies on
    /// the grid.
    pub open spec fn target(self, from: usize, x: int, y: int) -> Option<usize> {
        if self.row_size == 0 {
            None
        } else if in_bounds(
            (from as int) % (self.row_size as int) + x,
            (from as int) / (self.row_size as int) + y,
            self.row_size,
            self.col_size,
        ) {
            Some(
                self.square(
                    (from as int) % (self.row_size as int) + x,
                    (from as int) / (self.row_size as int) + y,
                ) as usize,
            )
        } else {
            None
        }
    }

    /// The row of a square, counted from the home edge of `side`.
    pub open spec fn rank(self, square: usize, side: Sign) -> int {
        if side == Sign::Negative {
            self.col_size - 1 - (square as int) / (self.row_size as int)
        } else {
            ((square as int) / (self.row_size as int)) as int
        }
    }
}

/// The nearest occupied square after `from` in index order, upwards or
/// downwards, if there is one on the board.
pub open spec fn nearest_occupied(cells: Seq<(isize, usize)>, from: int, up: bool) -> Option<usize>
    decreases
        (if up {
            cells.len() - from
        } else {
            from
        }),
{
    if !(0 <= from < cells.len()) {
        None
    } else if up {
        if from + 1 >= cells.len() {
            None
        } else if cells[from + 1].0 != 0 {
            Some((from + 1) as usize)
        } else {
            nearest_occupied(cells, from + 1, up)
        }
    } else {
        if from - 1 < 0 {
            None
        } else if cells[from - 1].0 != 0 {
            Some((from - 1) as usize)
        } else {
            nearest_occupied(cells, from - 1, up)
        }
    }
}

/// Whether every square strictly between two squares is empty.
pub open spec fn clear_between(cells: Seq<(isize, usize)>, a: int, b: int) -> bool {
    forall|s: int| (a < s < b || b < s < a) ==> (#[trigger] cells[s]).0 == 0
}

/// Whether `direction` leads a mover of the given side up the index order.
pub open spec fn leads_up(direction: Direction, mover: Sign) -> bool {
    (direction == Direction::Right) == (mover == Sign::Positive)
}

/// The nearest occupied square in a direction is occupied, lies in that
/// direction with only empty squares before it, and is missing only if every
/// square in that direction is empty.
pub proof fn lemma_nearest_occupied(cells: Seq<(isize, usize)>, from: int, up: bool)
    requires
        0 <= from < cells.len() <= usize::MAX,
    ensures
        match nearest_occupied(cells, from, up) {
            Some(found) => {
                &&& found < cells.len()
                &&& cells[found as int].0 != 0
                &&& if up {
                    from < found
                } else {
                    found < from
                }
                &&& clear_between(cells, from, found as int)
            },
            None => forall|s: int|
                0 <= s < cells.len() && (if up {
                    from < s
                } else {
                    s < from
                }) ==> (#[trigger] cells[s]).0 == 0,
        },
    decreases
        (if up {
            cells.len() - from
        } else {
            from
        }),
{
    if up {
        if from + 1 < cells.len() && cells[from + 1].0 == 0 {
            lemma_nearest_occupied(cells, from + 1, up);
        }
    } else {
        if from - 1 >= 0 && cells[from - 1].0 == 0 {
            lemma_nearest_occupied(cells, from - 1, up);
        }
    }
}

/// Whether the mover has never moved and the square one step ahead is empty.
pub open spec fn leap_open(
    mover: Sign,
    key: (isize, usize),
    from: usize,
    grid: Grid,
    trails: Map<(isize, usize), Seq<usize>>,
    x: int,
    y: int,
) -> bool {
    &&& !trails.contains_key(key)
    &&& grid.target(from, mover.scale(x), mover.scale(y)) matches Some(over)
    &&& grid.cells[over as int].0 == 0
    &&& isize::MIN <= 2 * x <= isize::MAX
    &&& isize::MIN <= 2 * y <= isize::MAX
}

/// Whether the square one step ahead holds a piece of the opposite side.
pub open spec fn attack_open(mover: Sign, from: usize, grid: Grid, x: int, y: int) -> bool {
    &&& grid.target(from, mover.scale(x), mover.scale(y)) matches Some(target)
    &&& grid.cells[target as int].0 != 0
    &&& mover.opposite(Sign::of(grid.cells[target as int].0 as int))
}

/// Whether the square `x` columns aside holds an opposing piece of the given
/// kind whose whole history is one move to that square, two rows beyond the
/// row `home` of its side.
pub open spec fn passing_open(
    mover: Sign,
    from: usize,
    grid: Grid,
    trails: Map<(isize, usize), Seq<usize>>,
    x: int,
    kind: int,
    home: int,
) -> bool {
    &&& grid.target(from, mover.scale(x), 0) matches Some(aside)
    &&& grid.cells[aside as int].0 != 0
    &&& mover.opposite(Sign::of(grid.cells[aside as int].0 as int))
    &&& code_kind(grid.cells[aside as int].0 as int) == kind
    &&& trails.contains_key(grid.cells[aside as int])
    &&& trails[grid.cells[aside as int]] == seq![aside]
    &&& grid.rank(aside, Sign::of(grid.cells[aside as int].0 as int)) == home + 2
}

/// The square of the partner with which the mover may castle in `direction`:
/// the nearest piece that way, if it is of the own side and of kind
/// `partner` and neither it nor the mover has ever moved.
pub open spec fn castle_partner(
    mover: Sign,
    key: (isize, usize),
    from: usize,
    grid: Grid,
    trails: Map<(isize, usize), Seq<usize>>,
    direction: Direction,
    partner: int,
) -> Option<usize> {
    if mover == Sign::Neutral {
        None
    } else {
        match nearest_occupied(
            grid.cells,
            from as int,
            leads_up(direction, mover),
        ) {
            None => None,
            Some(other) => if Sign::of(grid.cells[other as int].0 as int) == mover && code_kind(
                grid.cells[other as int].0 as int,
            ) == partner && !trails.contains_key(key) && !trails.contains_key(
                grid.cells[other as int],
            ) {
                Some(other)
            } else {
                None
            },
        }
    }
}

/// The number of squares strictly between two squares.
pub open spec fn gap(a: usize, b: usize) -> int {
    if a < b {
        b - a - 1
    } else {
        a - b - 1
    }
}

fn scaled(sign: Sign, v: isize) -> (r: i128)
    ensures
        r == sign.scale(v as int),
{
    match sign {
        Sign::Neutral => 0,
        Sign::Positive => v as i128,
        Sign::Negative => -(v as i128),
    }
}

fn target_square<B: Board>(board: &B, from: usize, x: i128, y: i128) -> (target: Option<usize>)
    requires
        board.wf(),
        -0x8000_0000_0000_0000 <= x <= 0x8000_0000_0000_0000,
        -0x8000_0000_0000_0000 <= y <= 0x8000_0000_0000_0000,
    ensures
        target == grid_of(board).target(from, x as int, y as int),
        target matches Some(t) ==> t < board.cells().len(),
{
    let row = board.get_row_size();
    let col = board.get_col_size();
    if row == 0 {
        return None;
    }
    let tx: i128 = (from % row) as i128 + x;
    let ty: i128 = (from / row) as i128 + y;
    if 0 <= tx && tx < row as i128 && 0 <= ty && ty < col as i128 {
        proof {
            board.lemma_wf();
            lemma_square_on_grid(tx as int, ty as int, board.row_size(), board.col_size());
        }
        Some(tx as usize + ty as usize * row)
    } else {
        None
    }
}

fn find_nearest<B: Board>(board: &B, from: usize, up: bool) -> (found: Option<
    (usize, PieceId<B::PieceType>),
>)
    requires
        board.wf(),
    ensures
        match nearest_occupied(board.cells(), from as int, up) {
            Some(other) => found matches Some((square, id)) && square == other && other
                < board.cells().len() && holds_cell(id, board.cells()[other as int]),
            None => found is None,
        },
{
    let size = board.get_board_size();
    let row = board.get_row_size();
    if from >= size {
        return None;
    }
    let mut at: usize = from;
    loop
        invariant
            board.wf(),
            size == board.cells().len(),
            row == board.row_size(),
            at < size,
            nearest_occupied(board.cells(), at as int, up) == nearest_occupied(
                board.cells(),
                from as int,
                up,
            ),
        decreases
            (if up {
                size - at
            } else {
                at as int
            }),
    {
        if up {
            if at + 1 >= size {
                return None;
            }
            at = at + 1;
        } else {
            if at == 0 {
                return None;
            }
            at = at - 1;
        }
        match board.get_id_not_none(&PiecePos(at, row)) {
            Some(id) => {
                return Some((at, id));
            },
            None => {},
        }
    }
}

impl StandardRule {
    /// The square of the partner with which `id`, standing on `from`, may
    /// castle in `direction`, if there is one.
    pub fn castle_check<P: Piece, B: Board<PieceType = P>>(
        id: &PieceId<P>,
        from: usize,
        board: &B,
        history: &BoardHistory,
        direction: Direction,
        partner: isize,
    ) -> (found: Option<usize>)
        requires
            board.wf(),
        ensures
            found == castle_partner(
                id.1,
                id.key(),
                from,
                grid_of(board),
                history@,
                direction,
                partner as int,
            ),
    {
        let up = match (direction, id.sign()) {
            (_, Sign::Neutral) => {
                return None;
            },
            (Direction::Right, Sign::Positive) => true,
            (Direction::Left, Sign::Negative) => true,
            _ => false,
        };
        match find_nearest(board, from, up) {
            None => None,
            Some((square, other)) => {
                if other.matches(id) && other.piece().to_value() == partner && history.get_slice(
                    id,
                ).is_none() && history.get_slice(&other).is_none() {
                    Some(square)
                } else {
                    None
                }
            },
        }
    }
}

impl ConditionalRule for StandardRule {
    /// A mover without a position gets nothing; for one with a position the
    /// form of the rule decides.
    open spec fn resolved(
        self,
        mover: Sign,
        key: (isize, usize),
        position: Option<usize>,
        grid: Grid,
        trails: Map<(isize, usize), Seq<usize>>,
    ) -> Option<(Move, CanCapture)> {
        match position {
            None => None,
            Some(from) => match self {
                StandardRule::FirstLeap { x, y } => if leap_open(
                    mover,
                    key,
                    from,
                    grid,
                    trails,
                    x as int,
                    y as int,
                ) {
                    Some(
                        (
                            Move { x: (2 * x) as isize, y: (2 * y) as isize, max_steps: 1 },
                            CanCapture::Never,
                        ),
                    )
                } else {
                    None
                },
                StandardRule::Attack { x, y } => if attack_open(
                    mover,
                    from,
                    grid,
                    x as int,
                    y as int,
                ) {
                    Some((Move { x, y, max_steps: 1 }, CanCapture::Opposing(1)))
                } else {
                    None
                },
                StandardRule::Passing { x, kind, home } => if passing_open(
                    mover,
                    from,
                    grid,
                    trails,
                    x as int,
                    kind as int,
                    home as int,
                ) {
                    Some((Move { x, y: 1, max_steps: 1 }, CanCapture::Never))
                } else {
                    None
                },
                StandardRule::CastleJump { direction, partner, distance } => if castle_partner(
                    mover,
                    key,
                    from,
                    grid,
                    trails,
                    direction,
                    partner as int,
                ) is Some {
                    Some((Move { x: distance, y: 0, max_steps: 1 }, CanCapture::Never))
                } else {
                    None
                },
                StandardRule::CastleBeside { direction, partner } => match castle_partner(
                    mover,
                    key,
                    from,
                    grid,
                    trails,
                    direction,
                    partner as int,
                ) {
                    Some(other) => if gap(from, other) <= isize::MAX {
                        Some(
                            (
                                Move {
                                    x: (if direction == Direction::Left {
                                        -gap(from, other)
                                    } else {
                                        gap(from, other)
                                    }) as isize,
                                    y: 0,
                                    max_steps: 1,
                                },
                                CanCapture::Never,
                            ),
                        )
                    } else {
                        None
                    },
                    None => None,
                },
            },
        }
    }

    fn try_resolve<P: Piece, B: Board<PieceType = P>>(
        &self,
        id: &PieceId<P>,
        board: &B,
        history: &BoardHistory,
    ) -> (resolved: Option<(Move, CanCapture)>) {
        let from = match board.get_pos(id) {
            Some(pos) => pos.u(),
            None => {
                return None;
            },
        };
        let row = board.get_row_size();
        match *self {
            StandardRule::FirstLeap { x, y } => {
                if history.get_slice(id).is_some() {
                    return None;
                }
                let over = match target_square(
                    board,
                    from,
                    scaled(id.sign(), x),
                    scaled(id.sign(), y),
                ) {
                    Some(over) => over,
                    None => {
                        return None;
                    },
                };
                if board.get_id_not_none(&PiecePos(over, row)).is_some() {
                    return None;
                }
                let double_x: i128 = 2 * (x as i128);
                let double_y: i128 = 2 * (y as i128);
                if double_x < isize::MIN as i128 || double_x > isize::MAX as i128 || double_y
                    < isize::MIN as i128 || double_y > isize::MAX as i128 {
                    return None;
                }
                Some((Move::new(double_x as isize, double_y as isize, 1), CanCapture::Never))
            },
            StandardRule::Attack { x, y } => {
                let target = match target_square(
                    board,
                    from,
                    scaled(id.sign(), x),
                    scaled(id.sign(), y),
                ) {
                    Some(target) => target,
                    None => {
                        return None;
                    },
                };
                match board.get_id_not_none(&PiecePos(target, row)) {
                    Some(other) => {
                        if id.opposes(&other) {
                            Some((Move::new(x, y, 1), CanCapture::Opposing(1)))
                        } else {
                            None
                        }
                    },
                    None => None,
                }
            },
            StandardRule::Passing { x, kind, home } => {
                let aside = match target_square(board, from, scaled(id.sign(), x), 0) {
                    Some(aside) => aside,
                    None => {
                        return None;
                    },
                };
                let other = match board.get_id_not_none(&PiecePos(aside, row)) {
                    Some(other) => other,
                    None => {
                        return None;
                    },
                };
                if !id.opposes(&other) || other.piece().to_value() != kind {
                    return None;
                }
                let moved_once_to_here = match history.get_slice(&other) {
                    Some(trail) => {
                        let squares = trail.inner();
                        let once = squares.len() == 1 && squares[0] == aside;
                        proof {
                            if once {
                                assert(trail@ =~= seq![aside]);
                            }
                        }
                        once
                    },
                    None => false,
                };
                if !moved_once_to_here {
                    return None;
                }
                let col = board.get_col_size();
                let rank: i128 = match other.sign() {
                    Sign::Negative => col as i128 - 1 - (aside / row) as i128,
                    _ => (aside / row) as i128,
                };
                if rank == home as i128 + 2 {
                    Some((Move::new(x, 1, 1), CanCapture::Never))
                } else {
                    None
                }
            },
            StandardRule::CastleJump { direction, partner, distance } => {
                match Self::castle_check(id, from, board, history, direction, partner) {
                    Some(_) => Some((Move::new(distance, 0, 1), CanCapture::Never)),
                    None => None,
                }
            },
            StandardRule::CastleBeside { direction, partner } => {
                match Self::castle_check(id, from, board, history, direction, partner) {
                    Some(other) => {
                        proof {
                            board.lemma_wf();
                            lemma_nearest_occupied(
                                board.cells(),
                                from as int,
                                leads_up(direction, id.1),
                            );
                        }
                        let between = if from < other {
                            other - from - 1
                        } else {
                            from - other - 1
                        };
                        if between > isize::MAX as usize {
                            return None;
                        }
                        let x = match direction {
                            Direction::Left => -(between as isize),
                            Direction::Right => between as isize,
                        };
                        Some((Move::new(x, 0, 1), CanCapture::Never))
                    },
                    None => None,
                }
            },
        }
    }
}

} // verus!
