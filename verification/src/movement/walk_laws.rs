//! What holds of every walk under the two readings that the engine has.

use vstd::prelude::*;
use crate::movement::can_capture::CanCapture;
use crate::movement::{
    mobility_action, presence_action, walk, CalculationResult, Grid, InterpretationResult, Move,
};
use crate::piece::piece_id::code_kind;
use crate::piece::piece_pos::{in_bounds, lemma_square_on_grid};
use crate::piece::sign::Sign;

verus! {

/// Whether a policy reads classifications as legal moves are read.
pub open spec fn reads_as_mobility(
    policy: spec_fn(CalculationResult) -> InterpretationResult,
) -> bool {
    forall|result: CalculationResult| #[trigger] policy(result) == mobility_action(result)
}

/// Whether a policy reads classifications as coverage is read.
pub open spec fn reads_as_presence(
    policy: spec_fn(CalculationResult) -> InterpretationResult,
) -> bool {
    forall|result: CalculationResult| #[trigger] policy(result) == presence_action(result)
}

impl Grid {
    /// The cells are the squares of the grid, and their number fits an index.
    pub open spec fn wf(self) -> bool {
        self.row_size * self.col_size == self.cells.len() && self.cells.len() <= usize::MAX
    }
}

/// The place reached after `i` steps of `d` from `start`.
#[verifier::opaque]
pub open spec fn nth(start: int, d: int, i: int) -> int {
    start + i * d
}

proof fn lemma_nth_shift(start: int, d: int, i: int)
    ensures
        nth(start + d, d, i - 1) == nth(start, d, i),
        nth(start, d, 0) == start,
{
    reveal(nth);
    assert((i - 1) * d + d == i * d) by (nonlinear_arith);
}

/// The shape of a walk under either reading: it takes no more steps than it
/// has, its squares follow one another along the vector, all but the last
/// are empty, an occupied last square was classified as a capture or, under
/// the coverage reading, as a block by a capturing policy, and a walk that
/// ends early ends at the board's edge or at an occupied square; where it
/// ends neither at the edge nor on a piece, the next square was read as the
/// end of the walk.
pub open spec fn shaped(
    policy: spec_fn(CalculationResult) -> InterpretationResult,
    rule: CanCapture,
    mover: Sign,
    grid: Grid,
    x: int,
    y: int,
    dx: int,
    dy: int,
    steps: nat,
    captured: nat,
) -> bool {
    let run = walk(policy, rule, mover, grid, x, y, dx, dy, steps, captured);
    let n = run.len() as int;
    &&& n <= steps
    &&& forall|i: int|
        0 <= i < n ==> in_bounds(
            nth(x, dx, i),
            #[trigger] nth(y, dy, i),
            grid.row_size,
            grid.col_size,
        )
    &&& forall|i: int|
        0 <= i < n ==> (#[trigger] run[i]) == grid.square(nth(x, dx, i), nth(y, dy, i))
    &&& forall|i: int|
        0 <= i < n - 1 ==> grid.code_at(nth(x, dx, i), #[trigger] nth(y, dy, i)) == 0
    &&& n > 0 && grid.code_at(nth(x, dx, n - 1), nth(y, dy, n - 1)) != 0 ==> {
        ||| grid.classify(rule, mover, nth(x, dx, n - 1), nth(y, dy, n - 1), captured) is Captured
        ||| reads_as_presence(policy) && rule.limit() > 0 && grid.classify(
            rule,
            mover,
            nth(x, dx, n - 1),
            nth(y, dy, n - 1),
            captured,
        ) is Blocked
    }
    &&& n < steps ==> {
        ||| !in_bounds(nth(x, dx, n), nth(y, dy, n), grid.row_size, grid.col_size)
        ||| grid.code_at(nth(x, dx, n), nth(y, dy, n)) != 0
        ||| n > 0 && grid.code_at(nth(x, dx, n - 1), nth(y, dy, n - 1)) != 0
    }
    &&& n < steps && in_bounds(nth(x, dx, n), nth(y, dy, n), grid.row_size, grid.col_size) && !(n
        > 0 && grid.code_at(nth(x, dx, n - 1), nth(y, dy, n - 1)) != 0) ==> policy(
        grid.classify(rule, mover, nth(x, dx, n), nth(y, dy, n), captured),
    ) == InterpretationResult::BreakBefore
}

proof fn lemma_walk_shape(
    policy: spec_fn(CalculationResult) -> InterpretationResult,
    rule: CanCapture,
    mover: Sign,
    grid: Grid,
    x: int,
    y: int,
    dx: int,
    dy: int,
    steps: nat,
    captured: nat,
)
    requires
        grid.wf(),
        reads_as_mobility(policy) || reads_as_presence(policy),
    ensures
        shaped(policy, rule, mover, grid, x, y, dx, dy, steps, captured),
    decreases steps,
{
    let run = walk(policy, rule, mover, grid, x, y, dx, dy, steps, captured);
    lemma_nth_shift(x, dx, 0);
    lemma_nth_shift(y, dy, 0);
    if steps == 0 || !in_bounds(x, y, grid.row_size, grid.col_size) {
    } else {
        lemma_square_on_grid(x, y, grid.row_size, grid.col_size);
        let result = grid.classify(rule, mover, x, y, captured);
        assert(policy(result) == mobility_action(result) || policy(result) == presence_action(
            result,
        ));
        if grid.code_at(x, y) == 0 {
            let rest = walk(
                policy,
                rule,
                mover,
                grid,
                x + dx,
                y + dy,
                dx,
                dy,
                (steps - 1) as nat,
                captured,
            );
            lemma_walk_shape(
                policy,
                rule,
                mover,
                grid,
                x + dx,
                y + dy,
                dx,
                dy,
                (steps - 1) as nat,
                captured,
            );
            assert(run == seq![grid.square(x, y) as usize] + rest);
            let n = run.len() as int;
            assert forall|i: int| 0 <= i <= n implies nth(x + dx, dx, i - 1) == nth(x, dx, i) && nth(
                y + dy,
                dy,
                i - 1,
            ) == #[trigger] nth(y, dy, i) by {
                lemma_nth_shift(x, dx, i);
                lemma_nth_shift(y, dy, i);
            }
            assert forall|i: int| 0 <= i < n implies in_bounds(
                nth(x, dx, i),
                #[trigger] nth(y, dy, i),
                grid.row_size,
                grid.col_size,
            ) by {
                if i > 0 {
                    assert(nth(y + dy, dy, i - 1) == nth(y, dy, i));
                }
            }
            assert forall|i: int| 0 <= i < n implies (#[trigger] run[i]) == grid.square(
                nth(x, dx, i),
                nth(y, dy, i),
            ) by {
                if i > 0 {
                    assert(run[i] == rest[i - 1]);
                    assert(nth(y + dy, dy, i - 1) == nth(y, dy, i));
                }
            }
            assert forall|i: int| 0 <= i < n - 1 implies grid.code_at(
                nth(x, dx, i),
                #[trigger] nth(y, dy, i),
            ) == 0 by {
                if i > 0 {
                    assert(nth(y + dy, dy, i - 1) == nth(y, dy, i));
                    assert(grid.code_at(nth(x + dx, dx, i - 1), nth(y + dy, dy, i - 1)) == 0);
                }
            }
            assert(nth(y + dy, dy, n - 1) == nth(y, dy, n));
            if n > 1 {
                assert(nth(y + dy, dy, n - 2) == nth(y, dy, n - 1));
            }
        } else {
            assert(code_kind(grid.code_at(x, y)) != 0);
            assert forall|i: int| 0 <= i < run.len() implies in_bounds(
                nth(x, dx, i),
                #[trigger] nth(y, dy, i),
                grid.row_size,
                grid.col_size,
            ) by {
                assert(i == 0);
                assert(nth(x, dx, 0) == x && nth(y, dy, 0) == y);
            }
            assert forall|i: int| 0 <= i < run.len() implies (#[trigger] run[i]) == grid.square(
                nth(x, dx, i),
                nth(y, dy, i),
            ) by {
                assert(i == 0);
                assert(nth(x, dx, 0) == x && nth(y, dy, 0) == y);
            }
        }
    }
}

impl Move {
    /// The column reached by the `i`-th step of a mover from `from`.
    pub open spec fn column(self, mover: Sign, grid: Grid, from: usize, i: int) -> int {
        (from as int) % (grid.row_size as int) + i * mover.scale(self.x as int)
    }

    /// The row reached by the `i`-th step of a mover from `from`.
    pub open spec fn row(self, mover: Sign, grid: Grid, from: usize, i: int) -> int {
        (from as int) / (grid.row_size as int) + i * mover.scale(self.y as int)
    }

    /// Whether the `i`-th step of a mover from `from` stays on the grid.
    pub open spec fn on_grid(self, mover: Sign, grid: Grid, from: usize, i: int) -> bool {
        in_bounds(
            self.column(mover, grid, from, i),
            self.row(mover, grid, from, i),
            grid.row_size,
            grid.col_size,
        )
    }

    /// The signed code on the square of the `i`-th step of a mover from `from`.
    pub open spec fn code_on(self, mover: Sign, grid: Grid, from: usize, i: int) -> int {
        grid.code_at(self.column(mover, grid, from, i), self.row(mover, grid, from, i))
    }

    /// The shape of the walk of a mover from `from`, with its steps counted
    /// from one.
    pub open spec fn run_shaped(
        self,
        policy: spec_fn(CalculationResult) -> InterpretationResult,
        rule: CanCapture,
        mover: Sign,
        grid: Grid,
        from: usize,
    ) -> bool {
        let run = self.squares(policy, rule, mover, grid, from);
        let n = run.len() as int;
        &&& n <= self.max_steps
        &&& forall|k: int| 1 <= k <= n ==> #[trigger] self.on_grid(mover, grid, from, k)
        &&& forall|i: int|
            0 <= i < n ==> (#[trigger] run[i]) == grid.square(
                self.column(mover, grid, from, i + 1),
                self.row(mover, grid, from, i + 1),
            )
        &&& forall|k: int| 1 <= k < n ==> #[trigger] self.code_on(mover, grid, from, k) == 0
        &&& n < self.max_steps ==> {
            ||| !self.on_grid(mover, grid, from, n + 1)
            ||| self.code_on(mover, grid, from, n + 1) != 0
            ||| n > 0 && self.code_on(mover, grid, from, n) != 0
        }
        &&& n < self.max_steps && self.on_grid(mover, grid, from, n + 1) && !(n > 0 && self.code_on(
            mover,
            grid,
            from,
            n,
        ) != 0) ==> policy(
            grid.classify(
                rule,
                mover,
                self.column(mover, grid, from, n + 1),
                self.row(mover, grid, from, n + 1),
                0,
            ),
        ) == InterpretationResult::BreakBefore
    }

    proof fn lemma_shape(
        self,
        policy: spec_fn(CalculationResult) -> InterpretationResult,
        rule: CanCapture,
        mover: Sign,
        grid: Grid,
        from: usize,
    )
        requires
            grid.wf(),
            reads_as_mobility(policy) || reads_as_presence(policy),
        ensures
            self.run_shaped(policy, rule, mover, grid, from),
            ({
                let n = self.squares(policy, rule, mover, grid, from).len() as int;
                n > 0 && self.code_on(mover, grid, from, n) != 0 ==> {
                    ||| rule.accepts(
                        mover,
                        code_kind(self.code_on(mover, grid, from, n)),
                        Sign::of(self.code_on(mover, grid, from, n)),
                        0,
                    )
                    ||| reads_as_presence(policy) && rule.limit() > 0
                }
            }),
    {
        if grid.row_size != 0 {
            let dx = mover.scale(self.x as int);
            let dy = mover.scale(self.y as int);
            let x = (from as int) % (grid.row_size as int) + dx;
            let y = (from as int) / (grid.row_size as int) + dy;
            let run = self.squares(policy, rule, mover, grid, from);
            let n = run.len() as int;
            lemma_walk_shape(policy, rule, mover, grid, x, y, dx, dy, self.max_steps as nat, 0);
            assert forall|i: int|
                nth(x, dx, i) == self.column(mover, grid, from, i + 1) && #[trigger] nth(y, dy, i)
                    == self.row(mover, grid, from, i + 1) by {
                reveal(nth);
                assert(i * dx + dx == (i + 1) * dx) by (nonlinear_arith);
                assert(i * dy + dy == (i + 1) * dy) by (nonlinear_arith);
            }
            assert forall|k: int| 1 <= k <= n implies #[trigger] self.on_grid(
                mover,
                grid,
                from,
                k,
            ) by {
                assert(nth(y, dy, k - 1) == self.row(mover, grid, from, k));
            }
            assert forall|i: int| 0 <= i < n implies (#[trigger] run[i]) == grid.square(
                self.column(mover, grid, from, i + 1),
                self.row(mover, grid, from, i + 1),
            ) by {
                assert(nth(y, dy, i) == self.row(mover, grid, from, i + 1));
            }
            assert forall|k: int| 1 <= k < n implies #[trigger] self.code_on(mover, grid, from, k)
                == 0 by {
                assert(nth(y, dy, k - 1) == self.row(mover, grid, from, k));
            }
            assert(nth(y, dy, n) == self.row(mover, grid, from, n + 1));
            assert(nth(y, dy, n - 1) == self.row(mover, grid, from, n));
        }
    }

    /// A walk of at most `max_steps` steps gives at most that many squares.
    /// They follow one another along the vector, each one step after the one
    /// before, and every square but the last is empty. A walk that gives
    /// fewer squares than it has steps has ended at the board's edge or at an
    /// occupied square: either the next step would leave the grid, or it
    /// would land on a piece, or the last square given holds one. Where the
    /// last square given is empty and the next step stays on the grid, the
    /// piece on the next square was classified so that the walk ends before
    /// it.
    pub proof fn lemma_unbroken_run(
        self,
        policy: spec_fn(CalculationResult) -> InterpretationResult,
        rule: CanCapture,
        mover: Sign,
        grid: Grid,
        from: usize,
    )
        requires
            grid.wf(),
            reads_as_mobility(policy) || reads_as_presence(policy),
        ensures
            self.run_shaped(policy, rule, mover, grid, from),
    {
        self.lemma_shape(policy, rule, mover, grid, from);
    }

    /// Under the policy that never captures, no square of a walk is occupied.
    pub proof fn lemma_never_lands_on_a_piece(
        self,
        policy: spec_fn(CalculationResult) -> InterpretationResult,
        mover: Sign,
        grid: Grid,
        from: usize,
    )
        requires
            grid.wf(),
            reads_as_mobility(policy) || reads_as_presence(policy),
        ensures
            ({
                let run = self.squares(policy, CanCapture::Never, mover, grid, from);
                forall|i: int| 0 <= i < run.len() ==> grid.cells[(#[trigger] run[i]) as int].0 == 0
            }),
    {
        self.lemma_shape(policy, CanCapture::Never, mover, grid, from);
        let run = self.squares(policy, CanCapture::Never, mover, grid, from);
        assert forall|i: int| 0 <= i < run.len() implies grid.cells[(#[trigger] run[i]) as int].0
            == 0 by {
            assert(self.on_grid(mover, grid, from, i + 1));
            lemma_square_on_grid(
                self.column(mover, grid, from, i + 1),
                self.row(mover, grid, from, i + 1),
                grid.row_size,
                grid.col_size,
            );
            if i < run.len() - 1 {
                assert(self.code_on(mover, grid, from, i + 1) == 0);
            }
        }
    }

    /// Among the legal moves under the policy that takes one opposing piece,
    /// only the last square of a walk can be occupied, and its occupant
    /// stands on the side opposite to the mover.
    pub proof fn lemma_opposing_takes_the_last(
        self,
        policy: spec_fn(CalculationResult) -> InterpretationResult,
        mover: Sign,
        grid: Grid,
        from: usize,
    )
        requires
            grid.wf(),
            reads_as_mobility(policy),
        ensures
            ({
                let run = self.squares(policy, CanCapture::Opposing(1), mover, grid, from);
                forall|i: int|
                    0 <= i < run.len() && grid.cells[(#[trigger] run[i]) as int].0 != 0 ==> i
                        == run.len() - 1 && mover.opposite(
                        Sign::of(grid.cells[run[i] as int].0 as int),
                    )
            }),
    {
        self.lemma_shape(policy, CanCapture::Opposing(1), mover, grid, from);
        let run = self.squares(policy, CanCapture::Opposing(1), mover, grid, from);
        assert(!reads_as_presence(policy)) by {
            if reads_as_presence(policy) {
                let blocked = CalculationResult::Blocked(1);
                assert(policy(blocked) == mobility_action(blocked));
                assert(policy(blocked) == presence_action(blocked));
            }
        }
        assert forall|i: int|
            0 <= i < run.len() && grid.cells[(#[trigger] run[i]) as int].0 != 0 implies i
            == run.len() - 1 && mover.opposite(Sign::of(grid.cells[run[i] as int].0 as int)) by {
            assert(self.on_grid(mover, grid, from, i + 1));
            lemma_square_on_grid(
                self.column(mover, grid, from, i + 1),
                self.row(mover, grid, from, i + 1),
                grid.row_size,
                grid.col_size,
            );
            if i < run.len() - 1 {
                assert(self.code_on(mover, grid, from, i + 1) == 0);
            }
        }
    }
}

} // verus!
