//! Movement primitives: a directional walk and the protocol that decides
//! where it stops.

use vstd::prelude::*;
use crate::board::Board;
use crate::movement::can_capture::CanCapture;
use crate::piece::Piece;
use crate::piece::piece_id::{code_kind, PieceId};
use crate::piece::piece_pos::{in_bounds, lemma_square_on_grid, PiecePos};
use crate::piece::sign::Sign;

pub mod can_capture;
pub mod can_move;
pub mod rule_laws;
pub mod walk_laws;

verus! {

/// How a landing policy classifies one stepped square. Each variant carries
/// the policy's capture limit.
#[derive(Clone, Copy, PartialEq, Eq, Structural, Debug)]
pub enum CalculationResult {
    /// Nothing stands on the square.
    Free(usize),
    /// The occupant may be taken.
    Captured(usize),
    /// The occupant may not be taken.
    Blocked(usize),
}

/// What a walk does with a classified square.
#[derive(Clone, Copy, PartialEq, Eq, Structural, Debug)]
pub enum InterpretationResult {
    /// Include the square and walk on.
    Continue,
    /// End the walk without the square.
    BreakBefore,
    /// Include the square and end the walk.
    BreakAfter,
}

/// The reading of classifications that a walk follows. The policy of an
/// interpreter is fixed: interpreting a square does not change how later
/// squares are read.
pub trait CaptureInterpreter {
    /// The action taken for each classification.
    spec fn policy(&self) -> spec_fn(CalculationResult) -> InterpretationResult;

    /// Makes the interpreter ready for a new walk.
    fn clear_internal_states(&mut self)
        ensures
            final(self).policy() == old(self).policy(),
    ;

    /// What the walk does with a square of the given classification.
    fn interpret(&mut self, calculation_result: CalculationResult) -> (action:
        InterpretationResult)
        ensures
            action == (old(self).policy())(calculation_result),
            final(self).policy() == old(self).policy(),
    ;
}

/// The reading for legal moves: a free square is passed, a capture ends the
/// walk on the captured square, a blocked square ends it before the square.
pub open spec fn mobility_action(result: CalculationResult) -> InterpretationResult {
    match result {
        CalculationResult::Free(_) => InterpretationResult::Continue,
        CalculationResult::Captured(_) => InterpretationResult::BreakAfter,
        CalculationResult::Blocked(_) => InterpretationResult::BreakBefore,
    }
}

/// The reading for coverage: as for legal moves, but a blocked square is
/// still covered unless the policy never captures at all.
pub open spec fn presence_action(result: CalculationResult) -> InterpretationResult {
    match result {
        CalculationResult::Free(_) => InterpretationResult::Continue,
        CalculationResult::Captured(_) => InterpretationResult::BreakAfter,
        CalculationResult::Blocked(max) => if max == 0 {
            InterpretationResult::BreakBefore
        } else {
            InterpretationResult::BreakAfter
        },
    }
}

/// Reads classifications for legal moves.
pub struct MobilityCalculator;

impl CaptureInterpreter for MobilityCalculator {
    open spec fn policy(&self) -> spec_fn(CalculationResult) -> InterpretationResult {
        |result: CalculationResult| mobility_action(result)
    }

    fn clear_internal_states(&mut self) {
    }

    fn interpret(&mut self, calculation_result: CalculationResult) -> (action:
        InterpretationResult) {
        match calculation_result {
            CalculationResult::Free(_) => InterpretationResult::Continue,
            CalculationResult::Captured(_) => InterpretationResult::BreakAfter,
            CalculationResult::Blocked(_) => InterpretationResult::BreakBefore,
        }
    }
}

/// Reads classifications for coverage: the squares that a piece contests.
pub struct PresenceCalculator;

impl PresenceCalculator {
    /// The reading for coverage.
    pub fn new() -> (calculator: Self)
        ensures
            calculator == PresenceCalculator,
    {
        PresenceCalculator
    }
}

impl CaptureInterpreter for PresenceCalculator {
    open spec fn policy(&self) -> spec_fn(CalculationResult) -> InterpretationResult {
        |result: CalculationResult| presence_action(result)
    }

    fn clear_internal_states(&mut self) {
    }

    fn interpret(&mut self, calculation_result: CalculationResult) -> (action:
        InterpretationResult) {
        match calculation_result {
            CalculationResult::Free(_) => InterpretationResult::Continue,
            CalculationResult::Captured(_) => InterpretationResult::BreakAfter,
            CalculationResult::Blocked(max) => {
                if max == 0 {
                    InterpretationResult::BreakBefore
                } else {
                    InterpretationResult::BreakAfter
                }
            },
        }
    }
}

/// What a walk sees of a board: the key on each square and the grid's shape.
pub struct Grid {
    pub cells: Seq<(isize, usize)>,
    pub row_size: nat,
    pub col_size: nat,
}

/// What a walk sees of `board`.
pub open spec fn grid_of<B: Board>(board: &B) -> Grid {
    Grid { cells: board.cells(), row_size: board.row_size(), col_size: board.col_size() }
}

impl Grid {
    /// The index of the square in column `x` of row `y`.
    pub open spec fn square(self, x: int, y: int) -> int {
        x + y * self.row_size
    }

    /// The signed code on the square in column `x` of row `y`.
    pub open spec fn code_at(self, x: int, y: int) -> int {
        self.cells[self.square(x, y)].0 as int
    }

    /// How `rule` classifies the square in column `x` of row `y`.
    pub open spec fn classify(self, rule: CanCapture, mover: Sign, x: int, y: int, captured: nat)
        -> CalculationResult {
        rule.classify(
            mover,
            code_kind(self.code_at(x, y)),
            Sign::of(self.code_at(x, y)),
            captured,
        )
    }

    /// The capture count after the square in column `x` of row `y`.
    pub open spec fn counted(self, rule: CanCapture, mover: Sign, x: int, y: int, captured: nat)
        -> nat {
        rule.counted(mover, code_kind(self.code_at(x, y)), Sign::of(self.code_at(x, y)), captured)
    }
}

/// The squares of a walk that is about to step on column `x` of row `y`, goes
/// on by `(dx, dy)` per step, has `steps` steps left and has taken `captured`
/// pieces so far. The walk ends where the steps run out, where it leaves the
/// grid, or where the policy ends it.
pub open spec fn walk(
    policy: spec_fn(CalculationResult) -> InterpretationResult,
    rule: CanCapture,
    mover: Sign,
    grid: Grid,
    x: int,
    y: int,
    dx: int,
    dy: int,
    steps: nat,
    captured: nat,
) -> Seq<usize>
    decreases steps,
{
    if steps == 0 || !in_bounds(x, y, grid.row_size, grid.col_size) {
        Seq::empty()
    } else {
        match policy(grid.classify(rule, mover, x, y, captured)) {
            InterpretationResult::Continue => seq![grid.square(x, y) as usize] + walk(
                policy,
                rule,
                mover,
                grid,
                x + dx,
                y + dy,
                dx,
                dy,
                (steps - 1) as nat,
                grid.counted(rule, mover, x, y, captured),
            ),
            InterpretationResult::BreakAfter => seq![grid.square(x, y) as usize],
            InterpretationResult::BreakBefore => Seq::empty(),
        }
    }
}

/// A direction vector, as columns and rows per step, and the greatest number
/// of steps taken along it.
#[derive(Clone, Copy, PartialEq, Eq, Structural, Debug)]
pub struct Move {
    pub x: isize,
    pub y: isize,
    pub max_steps: usize,
}

impl Move {
    /// The squares that a piece of side `mover` reaches from the square
    /// `from`: the walk along the vector as that side sees it.
    pub open spec fn squares(
        self,
        policy: spec_fn(CalculationResult) -> InterpretationResult,
        rule: CanCapture,
        mover: Sign,
        grid: Grid,
        from: usize,
    ) -> Seq<usize> {
        if grid.row_size == 0 {
            Seq::empty()
        } else {
            walk(
                policy,
                rule,
                mover,
                grid,
                (from as int) % (grid.row_size as int) + mover.scale(self.x as int),
                (from as int) / (grid.row_size as int) + mover.scale(self.y as int),
                mover.scale(self.x as int),
                mover.scale(self.y as int),
                self.max_steps as nat,
                0,
            )
        }
    }

    /// The move of at most `max_steps` steps along `(step_x, step_y)`.
    pub fn new(step_x: isize, step_y: isize, max_steps: usize) -> (m: Self)
        ensures
            m == (Move { x: step_x, y: step_y, max_steps }),
    {
        Move { x: step_x, y: step_y, max_steps }
    }

    /// Walks the vector from `piece_pos` and returns the squares reached, in
    /// the order of the walk.
    pub fn calculate<P: Piece, B: Board<PieceType = P>, I: CaptureInterpreter>(
        &self,
        capture_interpreter: &mut I,
        piece_id: &PieceId<P>,
        piece_pos: &PiecePos,
        can_capture: &CanCapture,
        board: &B,
    ) -> (calculated: Vec<usize>)
        requires
            board.wf(),
        ensures
            calculated@ == self.squares(
                old(capture_interpreter).policy(),
                *can_capture,
                piece_id.1,
                grid_of(board),
                piece_pos.0,
            ),
            final(capture_interpreter).policy() == old(capture_interpreter).policy(),
    {
        capture_interpreter.clear_internal_states();
        let mut calculated: Vec<usize> = Vec::new();
        let row = board.get_row_size();
        let col = board.get_col_size();
        if row == 0 {
            return calculated;
        }
        let ghost policy = capture_interpreter.policy();
        let ghost grid = grid_of(board);
        let ghost goal = self.squares(policy, *can_capture, piece_id.1, grid, piece_pos.0);
        let dx: i128 = match piece_id.sign() {
            Sign::Neutral => 0,
            Sign::Positive => self.x as i128,
            Sign::Negative => -(self.x as i128),
        };
        let dy: i128 = match piece_id.sign() {
            Sign::Neutral => 0,
            Sign::Positive => self.y as i128,
            Sign::Negative => -(self.y as i128),
        };
        let mut mx: i128 = (piece_pos.0 % row) as i128 + dx;
        let mut my: i128 = (piece_pos.0 / row) as i128 + dy;
        let mut left: usize = self.max_steps;
        let mut captured: usize = 0;
        while left > 0 && 0 <= mx && mx < row as i128 && 0 <= my && my < col as i128
            invariant
                board.wf(),
                grid == grid_of(board),
                row == grid.row_size,
                col == grid.col_size,
                capture_interpreter.policy() == policy,
                policy == old(capture_interpreter).policy(),
                goal == self.squares(policy, *can_capture, piece_id.1, grid, piece_pos.0),
                -0x1_0000_0000_0000_0000 <= mx <= 0x2_0000_0000_0000_0000,
                -0x1_0000_0000_0000_0000 <= my <= 0x2_0000_0000_0000_0000,
                -0x8000_0000_0000_0000 <= dx <= 0x8000_0000_0000_0000,
                -0x8000_0000_0000_0000 <= dy <= 0x8000_0000_0000_0000,
                calculated@ + walk(
                    policy,
                    *can_capture,
                    piece_id.1,
                    grid,
                    mx as int,
                    my as int,
                    dx as int,
                    dy as int,
                    left as nat,
                    captured as nat,
                ) == goal,
            decreases left,
        {
            proof {
                board.lemma_wf();
                lemma_square_on_grid(mx as int, my as int, grid.row_size, grid.col_size);
            }
            let square: usize = mx as usize + my as usize * row;
            let ghost before = calculated@;
            let ghost rest = walk(
                policy,
                *can_capture,
                piece_id.1,
                grid,
                mx + dx,
                my + dy,
                dx as int,
                dy as int,
                (left - 1) as nat,
                grid.counted(*can_capture, piece_id.1, mx as int, my as int, captured as nat),
            );
            match board.get_id(&PiecePos(square, row)) {
                None => {
                    return calculated;
                },
                Some(other) => {
                    let result = can_capture.calculate(piece_id, &other, &mut captured);
                    match capture_interpreter.interpret(result) {
                        InterpretationResult::Continue => {
                            calculated.push(square);
                            assert(calculated@ + rest == before + (seq![square] + rest));
                            mx = mx + dx;
                            my = my + dy;
                            left = left - 1;
                        },
                        InterpretationResult::BreakAfter => {
                            calculated.push(square);
                            assert(calculated@ == before + seq![square]);
                            return calculated;
                        },
                        InterpretationResult::BreakBefore => {
                            assert(before + Seq::<usize>::empty() == before);
                            return calculated;
                        },
                    }
                },
            }
        }
        assert(calculated@ + Seq::<usize>::empty() == calculated@);
        calculated
    }
}

} // verus!
