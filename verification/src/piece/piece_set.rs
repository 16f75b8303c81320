//! Rule tables per kind and their evaluation into reachable squares.

use vstd::prelude::*;
use crate::board::Board;
use crate::board::board_history::BoardHistory;
use crate::board::board_slice::BoardSlice;
use crate::movement::can_move::{CanMove, ConditionalRule};
use crate::movement::{grid_of, CalculationResult, CaptureInterpreter, Grid, InterpretationResult};
use crate::piece::Piece;
use crate::piece::piece_id::PieceId;
use crate::piece::sign::Sign;

verus! {

/// The squares that one rule gives to a mover standing on `from`: the walk
/// of a free rule, the walk of what a conditional rule yields, or nothing
/// while the condition does not hold.
pub open spec fn rule_squares<R: ConditionalRule>(
    rule: CanMove<R>,
    policy: spec_fn(CalculationResult) -> InterpretationResult,
    mover: Sign,
    key: (isize, usize),
    from: usize,
    grid: Grid,
    trails: Map<(isize, usize), Seq<usize>>,
) -> Seq<usize> {
    match rule {
        CanMove::Free(step, capture) => step.squares(policy, capture, mover, grid, from),
        CanMove::Conditional(condition) => match condition.resolved(
            mover,
            key,
            Some(from),
            grid,
            trails,
        ) {
            Some((step, capture)) => step.squares(policy, capture, mover, grid, from),
            None => Seq::empty(),
        },
    }
}

/// The squares that the first `n` rules of a table give, in table order and
/// without removing repeated squares.
pub open spec fn rules_squares<R: ConditionalRule>(
    rules: Seq<CanMove<R>>,
    n: int,
    policy: spec_fn(CalculationResult) -> InterpretationResult,
    mover: Sign,
    key: (isize, usize),
    from: usize,
    grid: Grid,
    trails: Map<(isize, usize), Seq<usize>>,
) -> Seq<usize>
    decreases n,
{
    if n <= 0 {
        Seq::empty()
    } else {
        rules_squares(rules, n - 1, policy, mover, key, from, grid, trails) + rule_squares(
            rules[n - 1],
            policy,
            mover,
            key,
            from,
            grid,
            trails,
        )
    }
}

/// The squares that a piece may reach: those of all rules of its kind, for a
/// piece that has a position and a kind that has rules.
pub open spec fn valid_squares<R: ConditionalRule>(
    rules: Option<Seq<CanMove<R>>>,
    policy: spec_fn(CalculationResult) -> InterpretationResult,
    mover: Sign,
    key: (isize, usize),
    position: Option<usize>,
    grid: Grid,
    trails: Map<(isize, usize), Seq<usize>>,
) -> Option<Seq<usize>> {
    match (position, rules) {
        (Some(from), Some(rules)) => Some(
            rules_squares(rules, rules.len() as int, policy, mover, key, from, grid, trails),
        ),
        _ => None,
    }
}

/// Evaluates a rule table for a piece: every rule in table order, each walk
/// appended to the result. Nothing comes back for a piece without a position
/// or a kind without rules.
pub fn valid_moves<
    P: Piece,
    B: Board<PieceType = P>,
    I: CaptureInterpreter,
    R: ConditionalRule,
>(
    rules: Option<Vec<CanMove<R>>>,
    capture_calculator: &mut I,
    piece_id: &PieceId<P>,
    board: &B,
    history: &BoardHistory,
) -> (valid: Option<Vec<usize>>)
    requires
        board.wf(),
    ensures
        final(capture_calculator).policy() == old(capture_calculator).policy(),
        match valid_squares(
            match rules {
                Some(rules) => Some(rules@),
                None => None,
            },
            old(capture_calculator).policy(),
            piece_id.1,
            piece_id.key(),
            board.position(piece_id.key()),
            grid_of(board),
            history@,
        ) {
            Some(squares) => valid matches Some(found) && found@ == squares,
            None => valid is None,
        },
{
    let pos = match board.get_pos(piece_id) {
        Some(pos) => pos,
        None => {
            return None;
        },
    };
    let moveset = match rules {
        Some(moveset) => moveset,
        None => {
            return None;
        },
    };
    let ghost policy = capture_calculator.policy();
    let ghost grid = grid_of(board);
    let mut valid: Vec<usize> = Vec::new();
    let mut i: usize = 0;
    while i < moveset.len()
        invariant
            i <= moveset.len(),
            board.wf(),
            grid == grid_of(board),
            board.position(piece_id.key()) == Some(pos.0),
            capture_calculator.policy() == policy,
            valid@ == rules_squares(
                moveset@,
                i as int,
                policy,
                piece_id.1,
                piece_id.key(),
                pos.0,
                grid,
                history@,
            ),
        decreases moveset.len() - i,
    {
        let mut move_op = match moveset[i] {
            CanMove::Free(m, c) => m.calculate(capture_calculator, piece_id, &pos, &c, board),
            CanMove::Conditional(c) => match c.try_resolve(piece_id, board, history) {
                Some((m, c)) => m.calculate(capture_calculator, piece_id, &pos, &c, board),
                None => Vec::new(),
            },
        };
        valid.append(&mut move_op);
        i += 1;
    }
    Some(valid)
}

/// The rule tables of a game: for each kind, the rules of its pieces.
pub trait PieceSet {
    type PieceType: Piece;

    /// The form of the conditional rules in the tables.
    type Rule: ConditionalRule;

    /// The rule table of the kind with the given value, if it has one.
    spec fn rules(&self, kind_value: int) -> Option<Seq<CanMove<Self::Rule>>>;

    /// The rule table of a kind, if it has one.
    fn moveset(&self, piece: &Self::PieceType) -> (moveset: Option<Vec<CanMove<Self::Rule>>>)
        ensures
            match self.rules(piece.value()) {
                Some(rules) => moveset matches Some(found) && found@ == rules,
                None => moveset is None,
            },
    ;

    /// The squares that `piece_id` may reach on this board with this
    /// history, as the given interpreter reads the landing policies: empty
    /// for a piece without a position or a kind without rules.
    fn valid_slice<B: Board<PieceType = Self::PieceType>, I: CaptureInterpreter>(
        &self,
        capture_calculator: &mut I,
        piece_id: &PieceId<Self::PieceType>,
        board: &B,
        history: &BoardHistory,
    ) -> (slice: BoardSlice)
        requires
            board.wf(),
        ensures
            final(capture_calculator).policy() == old(capture_calculator).policy(),
            slice@ == match valid_squares(
                self.rules(piece_id.0.value()),
                old(capture_calculator).policy(),
                piece_id.1,
                piece_id.key(),
                board.position(piece_id.key()),
                grid_of(board),
                history@,
            ) {
                Some(squares) => squares,
                None => Seq::empty(),
            },
    {
        BoardSlice::new(
            valid_moves(
                self.moveset(&piece_id.piece()),
                capture_calculator,
                piece_id,
                board,
                history,
            ),
        )
    }
}

} // verus!
