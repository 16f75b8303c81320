//! What holds of the built-in rule tables as a whole.

use vstd::prelude::*;
use crate::implementations::piece::standard_piece_set::{pawn_rules, StandardPieceSet};
use crate::movement::can_capture::CanCapture;
use crate::movement::can_move::passing_open;
use crate::movement::walk_laws::reads_as_mobility;
use crate::movement::{walk, CalculationResult, Grid, InterpretationResult, Move};
use crate::piece::piece_pos::lemma_square_on_grid;
use crate::piece::piece_set::{rule_squares, rules_squares, valid_squares, PieceSet};
use crate::piece::sign::Sign;

verus! {

/// A square is in a joined list exactly if it is in one of the two lists.
proof fn lemma_contains_joined(a: Seq<usize>, b: Seq<usize>, q: usize)
    ensures
        (a + b).contains(q) <==> a.contains(q) || b.contains(q),
{
    if a.contains(q) {
        let i = choose|i: int| 0 <= i < a.len() && a[i] == q;
        assert((a + b)[i] == q);
    }
    if b.contains(q) {
        let i = choose|i: int| 0 <= i < b.len() && b[i] == q;
        assert((a + b)[a.len() + i] == q);
    }
    if (a + b).contains(q) {
        let i = choose|i: int| 0 <= i < (a + b).len() && (a + b)[i] == q;
        if i < a.len() {
            assert(a[i] == q);
        } else {
            assert(b[i - a.len()] == q);
        }
    }
}

/// Two steps from one square that reach the same square are the same step.
proof fn lemma_one_step_per_target(grid: Grid, from: usize, a: int, b: int, c: int, d: int)
    requires
        grid.wf(),
        grid.target(from, a, b) is Some,
        grid.target(from, a, b) == grid.target(from, c, d),
    ensures
        a == c,
        b == d,
{
    let x = (from as int) % (grid.row_size as int);
    let y = (from as int) / (grid.row_size as int);
    lemma_square_on_grid(x + a, y + b, grid.row_size, grid.col_size);
    lemma_square_on_grid(x + c, y + d, grid.row_size, grid.col_size);
}

/// A move of one step reaches no square but the target of that step.
proof fn lemma_single_step(
    step: Move,
    policy: spec_fn(CalculationResult) -> InterpretationResult,
    rule: CanCapture,
    mover: Sign,
    grid: Grid,
    from: usize,
    q: usize,
)
    requires
        grid.wf(),
        reads_as_mobility(policy),
        step.max_steps == 1,
        step.squares(policy, rule, mover, grid, from).contains(q),
    ensures
        grid.target(from, mover.scale(step.x as int), mover.scale(step.y as int)) == Some(q),
{
    let run = step.squares(policy, rule, mover, grid, from);
    step.lemma_unbroken_run(policy, rule, mover, grid, from);
    let i = choose|i: int| 0 <= i < run.len() && run[i] == q;
    assert(i == 0);
    assert(step.on_grid(mover, grid, from, 1));
    assert(run[0] == grid.square(step.column(mover, grid, from, 1), step.row(mover, grid, from, 1)));
    assert(1 * mover.scale(step.x as int) == mover.scale(step.x as int));
    assert(1 * mover.scale(step.y as int) == mover.scale(step.y as int));
    lemma_square_on_grid(
        step.column(mover, grid, from, 1),
        step.row(mover, grid, from, 1),
        grid.row_size,
        grid.col_size,
    );
}

/// A move of one step without capture onto an empty square of the grid
/// reaches that square.
proof fn lemma_single_step_lands(
    step: Move,
    policy: spec_fn(CalculationResult) -> InterpretationResult,
    mover: Sign,
    grid: Grid,
    from: usize,
    q: usize,
)
    requires
        grid.wf(),
        reads_as_mobility(policy),
        step.max_steps == 1,
        grid.target(from, mover.scale(step.x as int), mover.scale(step.y as int)) == Some(q),
        grid.cells[q as int].0 == 0,
    ensures
        step.squares(policy, CanCapture::Never, mover, grid, from) == seq![q],
{
    reveal_with_fuel(walk, 2);
    let x = (from as int) % (grid.row_size as int) + mover.scale(step.x as int);
    let y = (from as int) / (grid.row_size as int) + mover.scale(step.y as int);
    lemma_square_on_grid(x, y, grid.row_size, grid.col_size);
    let result = grid.classify(CanCapture::Never, mover, x, y, 0);
    assert(result == CalculationResult::Free(0usize));
    assert(policy(result) == InterpretationResult::Continue);
    assert(step.squares(policy, CanCapture::Never, mover, grid, from) =~= seq![q]);
}

/// For a pawn whose diagonal square ahead on one side is an empty square of
/// the board: that square is among the pawn's legal moves exactly when the
/// square beside the pawn on that side holds an opposing pawn whose trail has
/// exactly one entry, the square on which it stands, two rows beyond the home
/// row of its side. No other rule of the pawn's table leads to that square.
pub proof fn lemma_pawn_passes_exactly(
    policy: spec_fn(CalculationResult) -> InterpretationResult,
    mover: Sign,
    key: (isize, usize),
    from: usize,
    grid: Grid,
    trails: Map<(isize, usize), Seq<usize>>,
    x: isize,
    diagonal: usize,
)
    requires
        grid.wf(),
        reads_as_mobility(policy),
        mover != Sign::Neutral,
        x == 1 || x == -1,
        grid.target(from, mover.scale(x as int), mover.scale(1)) == Some(diagonal),
        grid.cells[diagonal as int].0 == 0,
    ensures
        valid_squares(StandardPieceSet.rules(1), policy, mover, key, Some(from), grid, trails)
            == Some(rules_squares(pawn_rules(), 6, policy, mover, key, from, grid, trails)),
        rules_squares(pawn_rules(), 6, policy, mover, key, from, grid, trails).contains(diagonal)
            <==> passing_open(mover, from, grid, trails, x as int, 1, 1),
{
    assert(pawn_rules().len() == 6);
    reveal_with_fuel(rules_squares, 7);
    let rules = pawn_rules();
    let r0 = rule_squares(rules[0], policy, mover, key, from, grid, trails);
    let r1 = rule_squares(rules[1], policy, mover, key, from, grid, trails);
    let r2 = rule_squares(rules[2], policy, mover, key, from, grid, trails);
    let r3 = rule_squares(rules[3], policy, mover, key, from, grid, trails);
    let r4 = rule_squares(rules[4], policy, mover, key, from, grid, trails);
    let r5 = rule_squares(rules[5], policy, mover, key, from, grid, trails);
    let none = Seq::<usize>::empty();
    let all = rules_squares(rules, 6, policy, mover, key, from, grid, trails);
    assert(all == (((((none + r0) + r1) + r2) + r3) + r4) + r5);
    lemma_contains_joined(none, r0, diagonal);
    lemma_contains_joined(none + r0, r1, diagonal);
    lemma_contains_joined((none + r0) + r1, r2, diagonal);
    lemma_contains_joined(((none + r0) + r1) + r2, r3, diagonal);
    lemma_contains_joined((((none + r0) + r1) + r2) + r3, r4, diagonal);
    lemma_contains_joined(((((none + r0) + r1) + r2) + r3) + r4, r5, diagonal);
    let ahead = mover.scale(1);
    let aside = mover.scale(x as int);
    let fires = passing_open(mover, from, grid, trails, x as int, 1, 1);
    assert(!r0.contains(diagonal)) by {
        if r0.contains(diagonal) {
            let step = Move { x: 0, y: 1, max_steps: 1 };
            lemma_single_step(step, policy, CanCapture::Never, mover, grid, from, diagonal);
            lemma_one_step_per_target(grid, from, aside, ahead, mover.scale(0), mover.scale(1));
        }
    }
    assert(!r1.contains(diagonal)) by {
        if r1.contains(diagonal) {
            let step = Move { x: 0, y: 2, max_steps: 1 };
            lemma_single_step(step, policy, CanCapture::Never, mover, grid, from, diagonal);
            lemma_one_step_per_target(grid, from, aside, ahead, mover.scale(0), mover.scale(2));
        }
    }
    assert(!r2.contains(diagonal)) by {
        if r2.contains(diagonal) {
            let step = Move { x: -1isize, y: 1, max_steps: 1 };
            lemma_single_step(step, policy, CanCapture::Opposing(1), mover, grid, from, diagonal);
            lemma_one_step_per_target(grid, from, aside, ahead, mover.scale(-1), mover.scale(1));
        }
    }
    assert(!r3.contains(diagonal)) by {
        if r3.contains(diagonal) {
            let step = Move { x: 1, y: 1, max_steps: 1 };
            lemma_single_step(step, policy, CanCapture::Opposing(1), mover, grid, from, diagonal);
            lemma_one_step_per_target(grid, from, aside, ahead, mover.scale(1), mover.scale(1));
        }
    }
    assert(r4.contains(diagonal) <==> x == -1 && fires) by {
        let step = Move { x: -1isize, y: 1, max_steps: 1 };
        if r4.contains(diagonal) {
            lemma_single_step(step, policy, CanCapture::Never, mover, grid, from, diagonal);
            lemma_one_step_per_target(grid, from, aside, ahead, mover.scale(-1), mover.scale(1));
        }
        if x == -1 && fires {
            lemma_single_step_lands(step, policy, mover, grid, from, diagonal);
            assert(seq![diagonal][0] == diagonal);
        }
    }
    assert(r5.contains(diagonal) <==> x == 1 && fires) by {
        let step = Move { x: 1, y: 1, max_steps: 1 };
        if r5.contains(diagonal) {
            lemma_single_step(step, policy, CanCapture::Never, mover, grid, from, diagonal);
            lemma_one_step_per_target(grid, from, aside, ahead, mover.scale(1), mover.scale(1));
        }
        if x == 1 && fires {
            lemma_single_step_lands(step, policy, mover, grid, from, diagonal);
            assert(seq![diagonal][0] == diagonal);
        }
    }
}

} // verus!
