//! The trail of squares that each piece has moved to.

use vstd::prelude::*;
use std::collections::HashMap;
use crate::board::board_slice::BoardSlice;
use crate::piece::Piece;
use crate::piece::piece_id::PieceId;
use crate::piece::piece_pos::PiecePos;

verus! {

broadcast use vstd::std_specs::hash::group_hash_axioms;

/// The single integer under which the trail of a piece is stored: the signed
/// code in the upper half, the version in the lower half.
spec fn packed_key(key: (isize, usize)) -> int {
    (key.0 + 0x8000_0000_0000_0000) * 0x1_0000_0000_0000_0000 + key.1
}

/// Two pieces share a packed key only if they are the same piece.
proof fn lemma_packed_key_injective(a: (isize, usize), b: (isize, usize))
    requires
        packed_key(a) == packed_key(b),
    ensures
        a == b,
{
    let m = 0x1_0000_0000_0000_0000int;
    let ha = a.0 + 0x8000_0000_0000_0000;
    let hb = b.0 + 0x8000_0000_0000_0000;
    assert(0 <= a.1 < m && 0 <= b.1 < m);
    assert(ha == hb) by (nonlinear_arith)
        requires
            ha * m + a.1 == hb * m + b.1,
            0 <= a.1 < m,
            0 <= b.1 < m,
    ;
}

/// For every piece that has moved, the squares it moved to, oldest first. A
/// piece that never moved has no trail at all.
pub struct BoardHistory {
    past: HashMap<u128, BoardSlice>,
}

impl View for BoardHistory {
    type V = Map<(isize, usize), Seq<usize>>;

    closed spec fn view(&self) -> Map<(isize, usize), Seq<usize>> {
        Map::new(
            |key: (isize, usize)| self.past@.contains_key(packed_key(key) as u128),
            |key: (isize, usize)| self.past@[packed_key(key) as u128]@,
        )
    }
}

/// The trail of a piece in a history given as a map: empty if it never moved.
pub open spec fn trail_of(trails: Map<(isize, usize), Seq<usize>>, key: (isize, usize)) -> Seq<
    usize,
> {
    if trails.contains_key(key) {
        trails[key]
    } else {
        Seq::empty()
    }
}

/// The history that holds the first `n` of the given trails; of two trails
/// for one piece the later one stays.
pub open spec fn trails_from(entries: Seq<((isize, usize), Vec<usize>)>, n: int) -> Map<
    (isize, usize),
    Seq<usize>,
>
    decreases n,
{
    if n <= 0 {
        Map::empty()
    } else {
        trails_from(entries, n - 1).insert(entries[n - 1].0, entries[n - 1].1@)
    }
}

fn pack(key: (isize, usize)) -> (k: u128)
    ensures
        k == packed_key(key),
{
    let high: u128 = (key.0 as i128 + 0x8000_0000_0000_0000i128) as u128;
    assert(high * 0x1_0000_0000_0000_0000 + key.1 < 0x1_0000_0000_0000_0000_0000_0000_0000_0000)
        by (nonlinear_arith)
        requires
            0 <= high < 0x1_0000_0000_0000_0000,
            0 <= key.1 < 0x1_0000_0000_0000_0000,
    ;
    high * 0x1_0000_0000_0000_0000u128 + key.1 as u128
}

fn copy_squares(squares: &Vec<usize>) -> (copy: Vec<usize>)
    ensures
        copy@ == squares@,
{
    let mut copy: Vec<usize> = Vec::new();
    let mut i: usize = 0;
    while i < squares.len()
        invariant
            i <= squares.len(),
            copy@ == squares@.take(i as int),
        decreases squares.len() - i,
    {
        copy.push(squares[i]);
        i += 1;
    }
    copy
}

impl BoardHistory {
    /// The history with the given trails, or the history in which no piece
    /// has moved.
    pub fn new(initial: Option<Vec<((isize, usize), Vec<usize>)>>) -> (history: Self)
        ensures
            history@ == match initial {
                Some(entries) => trails_from(entries@, entries@.len() as int),
                None => Map::<(isize, usize), Seq<usize>>::empty(),
            },
    {
        let mut history = BoardHistory { past: HashMap::new() };
        assert(history@ =~= Map::<(isize, usize), Seq<usize>>::empty());
        match initial {
            None => {},
            Some(entries) => {
                let mut i: usize = 0;
                while i < entries.len()
                    invariant
                        i <= entries.len(),
                        history@ == trails_from(entries@, i as int),
                    decreases entries.len() - i,
                {
                    let key = entries[i].0;
                    let trail = copy_squares(&entries[i].1);
                    let ghost before = history@;
                    history.past.insert(pack(key), BoardSlice(trail));
                    proof {
                        assert forall|other: (isize, usize)|
                            packed_key(other) == packed_key(key) implies other == key by {
                            lemma_packed_key_injective(other, key);
                        }
                        assert(history@ =~= before.insert(key, entries@[i as int].1@));
                    }
                    i += 1;
                }
            },
        }
        history
    }

    /// The trail of `id`, or nothing if the piece has never moved.
    pub fn get_slice<P: Piece>(&self, id: &PieceId<P>) -> (trail: Option<&BoardSlice>)
        ensures
            trail is Some <==> self@.contains_key(id.key()),
            trail matches Some(slice) ==> slice@ == self@[id.key()],
    {
        self.past.get(&pack(id.as_key()))
    }

    /// Appends `pos` to the trail of `id`; the first move starts the trail.
    pub fn push<P: Piece>(&mut self, id: &PieceId<P>, pos: &PiecePos)
        ensures
            final(self)@ == old(self)@.insert(id.key(), trail_of(old(self)@, id.key()).push(pos.0)),
    {
        let key = id.as_key();
        let packed = pack(key);
        let ghost before = self@;
        let mut slice = match self.past.remove(&packed) {
            Some(slice) => slice,
            None => BoardSlice(Vec::new()),
        };
        slice.push(pos.u());
        self.past.insert(packed, slice);
        proof {
            assert forall|other: (isize, usize)|
                packed_key(other) == packed_key(key) implies other == key by {
                lemma_packed_key_injective(other, key);
            }
            assert(self@ =~= before.insert(key, trail_of(before, key).push(pos.0)));
        }
    }

    /// Forgets every trail.
    pub fn clear(&mut self)
        ensures
            final(self)@ == Map::<(isize, usize), Seq<usize>>::empty(),
    {
        self.past = HashMap::new();
        assert(self@ =~= Map::<(isize, usize), Seq<usize>>::empty());
    }
}

} // verus!
