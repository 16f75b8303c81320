//! The built-in rule tables of the orthodox chess pieces.

use vstd::prelude::*;
use crate::implementations::piece::standard_piece::StandardPiece;
use crate::movement::can_capture::CanCapture;
use crate::movement::can_move::{CanMove, Direction, StandardRule};
use crate::movement::Move;
use crate::piece::piece_set::PieceSet;
use crate::piece::Piece;

verus! {

/// A free rule: `steps` steps along `(x, y)`, taking one opposing piece.
pub open spec fn free(x: isize, y: isize, steps: usize) -> CanMove<StandardRule> {
    CanMove::Free(Move { x, y, max_steps: steps }, CanCapture::Opposing(1))
}

/// A push one row ahead onto an empty square; a leap of two rows for a pawn
/// that has not moved; a capture on either diagonal ahead; and the capture in
/// passing of a pawn that has just leapt from its home row to either side.
pub open spec fn pawn_rules() -> Seq<CanMove<StandardRule>> {
    seq![
        CanMove::Free(Move { x: 0, y: 1, max_steps: 1 }, CanCapture::Never),
        CanMove::Conditional(StandardRule::FirstLeap { x: 0, y: 1 }),
        CanMove::Conditional(StandardRule::Attack { x: -1isize, y: 1 }),
        CanMove::Conditional(StandardRule::Attack { x: 1, y: 1 }),
        CanMove::Conditional(StandardRule::Passing { x: -1isize, kind: 1, home: 1 }),
        CanMove::Conditional(StandardRule::Passing { x: 1, kind: 1, home: 1 }),
    ]
}

/// The eight single leaps of a knight.
pub open spec fn knight_rules() -> Seq<CanMove<StandardRule>> {
    seq![
        free(1, 2, 1),
        free(-1isize, 2, 1),
        free(1, -2isize, 1),
        free(-1isize, -2isize, 1),
        free(2, 1, 1),
        free(-2isize, 1, 1),
        free(2, -1isize, 1),
        free(-2isize, -1isize, 1),
    ]
}

/// The four diagonals, as far as the board goes.
pub open spec fn bishop_rules() -> Seq<CanMove<StandardRule>> {
    seq![
        free(1, 1, usize::MAX),
        free(-1isize, 1, usize::MAX),
        free(1, -1isize, usize::MAX),
        free(-1isize, -1isize, usize::MAX),
    ]
}

/// The rows and columns, as far as the board goes, and castling with the
/// king to either side, next to the king's square.
pub open spec fn rook_rules() -> Seq<CanMove<StandardRule>> {
    seq![
        free(1, 0, usize::MAX),
        free(-1isize, 0, usize::MAX),
        free(0, 1, usize::MAX),
        free(0, -1isize, usize::MAX),
        CanMove::Conditional(
            StandardRule::CastleBeside { direction: Direction::Left, partner: 6 },
        ),
        CanMove::Conditional(
            StandardRule::CastleBeside { direction: Direction::Right, partner: 6 },
        ),
    ]
}

/// The rows, columns and diagonals, as far as the board goes.
pub open spec fn queen_rules() -> Seq<CanMove<StandardRule>> {
    seq![
        free(1, 0, usize::MAX),
        free(-1isize, 0, usize::MAX),
        free(0, 1, usize::MAX),
        free(0, -1isize, usize::MAX),
        free(1, 1, usize::MAX),
        free(-1isize, 1, usize::MAX),
        free(1, -1isize, usize::MAX),
        free(-1isize, -1isize, usize::MAX),
    ]
}

/// One step in each of the eight directions, and castling with a rook to
/// either side by a leap of two columns.
pub open spec fn king_rules() -> Seq<CanMove<StandardRule>> {
    seq![
        free(1, 0, 1),
        free(-1isize, 0, 1),
        free(0, 1, 1),
        free(0, -1isize, 1),
        free(1, 1, 1),
        free(-1isize, 1, 1),
        free(1, -1isize, 1),
        free(-1isize, -1isize, 1),
        CanMove::Conditional(
            StandardRule::CastleJump { direction: Direction::Left, partner: 4, distance: -2isize },
        ),
        CanMove::Conditional(
            StandardRule::CastleJump { direction: Direction::Right, partner: 4, distance: 2 },
        ),
    ]
}

/// The rule table of the kind with the given value: one for each of the six
/// chess kinds, none for the empty kind and for further kinds.
pub open spec fn standard_rules(kind_value: int) -> Option<Seq<CanMove<StandardRule>>> {
    if kind_value == 1 {
        Some(pawn_rules())
    } else if kind_value == 2 {
        Some(knight_rules())
    } else if kind_value == 3 {
        Some(bishop_rules())
    } else if kind_value == 4 {
        Some(rook_rules())
    } else if kind_value == 5 {
        Some(queen_rules())
    } else if kind_value == 6 {
        Some(king_rules())
    } else {
        None
    }
}

fn step(x: isize, y: isize, steps: usize) -> (rule: CanMove<StandardRule>)
    ensures
        rule == free(x, y, steps),
{
    CanMove::Free(Move::new(x, y, steps), CanCapture::Opposing(1))
}

fn pawn_moveset() -> (rules: Vec<CanMove<StandardRule>>)
    ensures
        rules@ == pawn_rules(),
{
    let rules = vec![
        CanMove::Free(Move::new(0, 1, 1), CanCapture::Never),
        CanMove::Conditional(StandardRule::FirstLeap { x: 0, y: 1 }),
        CanMove::Conditional(StandardRule::Attack { x: -1isize, y: 1 }),
        CanMove::Conditional(StandardRule::Attack { x: 1, y: 1 }),
        CanMove::Conditional(StandardRule::Passing { x: -1isize, kind: 1, home: 1 }),
        CanMove::Conditional(StandardRule::Passing { x: 1, kind: 1, home: 1 }),
    ];
    assert(rules@ =~= pawn_rules());
    rules
}

fn knight_moveset() -> (rules: Vec<CanMove<StandardRule>>)
    ensures
        rules@ == knight_rules(),
{
    let rules = vec![
        step(1, 2, 1),
        step(-1isize, 2, 1),
        step(1, -2isize, 1),
        step(-1isize, -2isize, 1),
        step(2, 1, 1),
        step(-2isize, 1, 1),
        step(2, -1isize, 1),
        step(-2isize, -1isize, 1),
    ];
    assert(rules@ =~= knight_rules());
    rules
}

fn bishop_moveset() -> (rules: Vec<CanMove<StandardRule>>)
    ensures
        rules@ == bishop_rules(),
{
    let rules = vec![
        step(1, 1, usize::MAX),
        step(-1isize, 1, usize::MAX),
        step(1, -1isize, usize::MAX),
        step(-1isize, -1isize, usize::MAX),
    ];
    assert(rules@ =~= bishop_rules());
    rules
}

fn rook_moveset() -> (rules: Vec<CanMove<StandardRule>>)
    ensures
        rules@ == rook_rules(),
{
    let rules = vec![
        step(1, 0, usize::MAX),
        step(-1isize, 0, usize::MAX),
        step(0, 1, usize::MAX),
        step(0, -1isize, usize::MAX),
        CanMove::Conditional(
            StandardRule::CastleBeside { direction: Direction::Left, partner: 6 },
        ),
        CanMove::Conditional(
            StandardRule::CastleBeside { direction: Direction::Right, partner: 6 },
        ),
    ];
    assert(rules@ =~= rook_rules());
    rules
}

fn queen_moveset() -> (rules: Vec<CanMove<StandardRule>>)
    ensures
        rules@ == queen_rules(),
{
    let rules = vec![
        step(1, 0, usize::MAX),
        step(-1isize, 0, usize::MAX),
        step(0, 1, usize::MAX),
        step(0, -1isize, usize::MAX),
        step(1, 1, usize::MAX),
        step(-1isize, 1, usize::MAX),
        step(1, -1isize, usize::MAX),
        step(-1isize, -1isize, usize::MAX),
    ];
    assert(rules@ =~= queen_rules());
    rules
}

fn king_moveset() -> (rules: Vec<CanMove<StandardRule>>)
    ensures
        rules@ == king_rules(),
{
    let rules = vec![
        step(1, 0, 1),
        step(-1isize, 0, 1),
        step(0, 1, 1),
        step(0, -1isize, 1),
        step(1, 1, 1),
        step(-1isize, 1, 1),
        step(1, -1isize, 1),
        step(-1isize, -1isize, 1),
        CanMove::Conditional(
            StandardRule::CastleJump { direction: Direction::Left, partner: 4, distance: -2isize },
        ),
        CanMove::Conditional(
            StandardRule::CastleJump { direction: Direction::Right, partner: 4, distance: 2 },
        ),
    ];
    assert(rules@ =~= king_rules());
    rules
}

/// The rule tables of orthodox chess.
pub struct StandardPieceSet;

impl PieceSet for StandardPieceSet {
    type PieceType = StandardPiece;

    type Rule = StandardRule;

    open spec fn rules(&self, kind_value: int) -> Option<Seq<CanMove<StandardRule>>> {
        standard_rules(kind_value)
    }

    fn moveset(&self, piece: &StandardPiece) -> (moveset: Option<Vec<CanMove<StandardRule>>>) {
        let kind_value = piece.to_value();
        if kind_value == 1 {
            Some(pawn_moveset())
        } else if kind_value == 2 {
            Some(knight_moveset())
        } else if kind_value == 3 {
            Some(bishop_moveset())
        } else if kind_value == 4 {
            Some(rook_moveset())
        } else if kind_value == 5 {
            Some(queen_moveset())
        } else if kind_value == 6 {
            Some(king_moveset())
        } else {
            None
        }
    }
}

} // verus!
