//! When exactly the conditional rules of castling and of capture in passing
//! yield a move.

use vstd::prelude::*;
use crate::movement::can_move::{
    castle_partner, clear_between, gap, leads_up, lemma_nearest_occupied, nearest_occupied,
    passing_open, ConditionalRule, Direction, StandardRule,
};
use crate::movement::Grid;
use crate::piece::piece_id::code_kind;
use crate::piece::sign::Sign;

verus! {

/// Whether a mover on `from` may castle with the piece on `other`: the piece
/// lies in `direction`, all squares between the two are empty, it is of the
/// mover's side and of kind `partner`, and neither of the two has a trail.
pub open spec fn castles_with(
    mover: Sign,
    key: (isize, usize),
    from: usize,
    other: int,
    grid: Grid,
    trails: Map<(isize, usize), Seq<usize>>,
    direction: Direction,
    partner: int,
) -> bool {
    &&& mover != Sign::Neutral
    &&& 0 <= other < grid.cells.len()
    &&& if leads_up(direction, mover) {
        from < other
    } else {
        other < from
    }
    &&& clear_between(grid.cells, from as int, other)
    &&& Sign::of(grid.cells[other].0 as int) == mover
    &&& code_kind(grid.cells[other].0 as int) == partner
    &&& !trails.contains_key(key)
    &&& !trails.contains_key(grid.cells[other])
}

/// The partner that the castling condition finds is the one piece with
/// which the mover may castle in that direction.
pub proof fn lemma_castle_partner(
    mover: Sign,
    key: (isize, usize),
    from: usize,
    other: int,
    grid: Grid,
    trails: Map<(isize, usize), Seq<usize>>,
    direction: Direction,
    partner: int,
)
    requires
        from < grid.cells.len() <= usize::MAX,
    ensures
        castle_partner(mover, key, from, grid, trails, direction, partner) == Some(other as usize)
            && 0 <= other <= usize::MAX <==> castles_with(
            mover,
            key,
            from,
            other,
            grid,
            trails,
            direction,
            partner,
        ),
{
    if mover != Sign::Neutral {
        lemma_nearest_occupied(grid.cells, from as int, leads_up(direction, mover));
        if castles_with(mover, key, from, other, grid, trails, direction, partner) {
            assert(grid.cells[other].0 != 0);
            match nearest_occupied(grid.cells, from as int, leads_up(direction, mover)) {
                Some(found) => {
                    if found != other {
                        assert(grid.cells[found as int].0 != 0);
                    }
                },
                None => {},
            }
        }
    }
}

/// A castling rule yields its move exactly when there is a piece in its
/// direction that is of the mover's side and of the partner kind, with only
/// empty squares between the two and no trail for either of them. This holds
/// of the rule that leaps a fixed distance, which the king has, and of the
/// rule that leaps to the square beside the partner, which the rook has; the
/// latter also needs the leap to fit a step.
pub proof fn lemma_castling_fires_exactly(
    rule: StandardRule,
    mover: Sign,
    key: (isize, usize),
    from: usize,
    grid: Grid,
    trails: Map<(isize, usize), Seq<usize>>,
)
    requires
        from < grid.cells.len() <= usize::MAX,
    ensures
        rule matches StandardRule::CastleJump { direction, partner, distance } ==> (
        rule.resolved(mover, key, Some(from), grid, trails) is Some <==> exists|other: int|
            castles_with(mover, key, from, other, grid, trails, direction, partner as int)),
        rule matches StandardRule::CastleBeside { direction, partner } ==> (rule.resolved(
            mover,
            key,
            Some(from),
            grid,
            trails,
        ) is Some <==> exists|other: int|
            castles_with(mover, key, from, other, grid, trails, direction, partner as int) && gap(
                from,
                other as usize,
            ) <= isize::MAX),
{
    match rule {
        StandardRule::CastleJump { direction, partner, distance } => {
            let found = castle_partner(mover, key, from, grid, trails, direction, partner as int);
            if found is Some {
                lemma_castle_partner(
                    mover,
                    key,
                    from,
                    found->0 as int,
                    grid,
                    trails,
                    direction,
                    partner as int,
                );
            }
            assert forall|other: int|
                castles_with(
                    mover,
                    key,
                    from,
                    other,
                    grid,
                    trails,
                    direction,
                    partner as int,
                ) implies found is Some by {
                lemma_castle_partner(mover, key, from, other, grid, trails, direction, partner as int);
            }
        },
        StandardRule::CastleBeside { direction, partner } => {
            let found = castle_partner(mover, key, from, grid, trails, direction, partner as int);
            if found is Some {
                lemma_castle_partner(
                    mover,
                    key,
                    from,
                    found->0 as int,
                    grid,
                    trails,
                    direction,
                    partner as int,
                );
            }
            assert forall|other: int|
                castles_with(
                    mover,
                    key,
                    from,
                    other,
                    grid,
                    trails,
                    direction,
                    partner as int,
                ) implies found == Some(other as usize) by {
                lemma_castle_partner(mover, key, from, other, grid, trails, direction, partner as int);
            }
        },
        _ => {},
    }
}

/// The rule of capture in passing yields its move exactly when the square
/// beside the mover holds an opposing piece of the rule's kind whose trail
/// has exactly one entry, the square on which it stands, and that square
/// lies two rows beyond the home row of the piece's side: the piece came
/// there in one leap of two rows.
pub proof fn lemma_passing_fires_exactly(
    x: isize,
    kind: isize,
    home: usize,
    mover: Sign,
    key: (isize, usize),
    from: usize,
    grid: Grid,
    trails: Map<(isize, usize), Seq<usize>>,
)
    ensures
        (StandardRule::Passing { x, kind, home }).resolved(mover, key, Some(from), grid, trails)
            is Some <==> exists|aside: usize|
            {
                &&& #[trigger] grid.target(from, mover.scale(x as int), 0) == Some(aside)
                &&& grid.cells[aside as int].0 != 0
                &&& mover.opposite(Sign::of(grid.cells[aside as int].0 as int))
                &&& code_kind(grid.cells[aside as int].0 as int) == kind
                &&& trails.contains_key(grid.cells[aside as int])
                &&& trails[grid.cells[aside as int]].len() == 1
                &&& trails[grid.cells[aside as int]][0] == aside
                &&& grid.rank(aside, Sign::of(grid.cells[aside as int].0 as int)) - home == 2
            },
{
    let rule = StandardRule::Passing { x, kind, home };
    if passing_open(mover, from, grid, trails, x as int, kind as int, home as int) {
        let aside = grid.target(from, mover.scale(x as int), 0)->0;
        assert(grid.target(from, mover.scale(x as int), 0) == Some(aside));
    }
    assert forall|aside: usize|
        {
            &&& #[trigger] grid.target(from, mover.scale(x as int), 0) == Some(aside)
            &&& grid.cells[aside as int].0 != 0
            &&& mover.opposite(Sign::of(grid.cells[aside as int].0 as int))
            &&& code_kind(grid.cells[aside as int].0 as int) == kind
            &&& trails.contains_key(grid.cells[aside as int])
            &&& trails[grid.cells[aside as int]].len() == 1
            &&& trails[grid.cells[aside as int]][0] == aside
            &&& grid.rank(aside, Sign::of(grid.cells[aside as int].0 as int)) - home == 2
        } implies passing_open(mover, from, grid, trails, x as int, kind as int, home as int) by {
        assert(trails[grid.cells[aside as int]] =~= seq![aside]);
    }
}

} // verus!
