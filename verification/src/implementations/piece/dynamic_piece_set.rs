//! Rule tables that are filled at run time.

use vstd::prelude::*;
use std::collections::HashMap;
use std::marker::PhantomData;
use crate::movement::can_move::{CanMove, ConditionalRule};
use crate::piece::Piece;
use crate::piece::piece_set::PieceSet;

verus! {

broadcast use vstd::std_specs::hash::group_hash_axioms;

/// For each kind that was given rules, its rules in the order of insertion.
/// The table is keyed by kind value; its conditional rules are of the form
/// `R`, the built-in one or one of the user's own.
pub struct DynamicPieceSet<T: Piece, R: ConditionalRule>(
    pub HashMap<isize, Vec<CanMove<R>>>,
    pub PhantomData<T>,
);

impl<T: Piece, R: ConditionalRule> DynamicPieceSet<T, R> {
    /// The set in which no kind has rules.
    pub fn new() -> (set: Self)
        ensures
            forall|kind_value: int| set.rules(kind_value) is None,
    {
        DynamicPieceSet(HashMap::new(), PhantomData)
    }

    /// Appends a rule to the table of a kind; the first rule starts the table.
    pub fn insert(&mut self, piece: T, piece_move: CanMove<R>)
        ensures
            final(self).rules(piece.value()) == Some(
                match old(self).rules(piece.value()) {
                    Some(rules) => rules.push(piece_move),
                    None => seq![piece_move],
                },
            ),
            forall|kind_value: int|
                kind_value != piece.value() ==> final(self).rules(kind_value) == old(self).rules(
                    kind_value,
                ),
    {
        let key = piece.to_value();
        let mut moveset = match self.0.remove(&key) {
            Some(moveset) => moveset,
            None => Vec::new(),
        };
        moveset.push(piece_move);
        self.0.insert(key, moveset);
        assert(Seq::<CanMove<R>>::empty().push(piece_move) =~= seq![piece_move]);
    }
}

impl<T: Piece, R: ConditionalRule> PieceSet for DynamicPieceSet<T, R> {
    type PieceType = T;

    type Rule = R;

    open spec fn rules(&self, kind_value: int) -> Option<Seq<CanMove<R>>> {
        if isize::MIN <= kind_value <= isize::MAX && self.0@.contains_key(kind_value as isize) {
            Some(self.0@[kind_value as isize]@)
        } else {
            None
        }
    }

    fn moveset(&self, piece: &T) -> (moveset: Option<Vec<CanMove<R>>>) {
        match self.0.get(&piece.to_value()) {
            Some(rules) => {
                let mut copy: Vec<CanMove<R>> = Vec::new();
                let mut i: usize = 0;
                while i < rules.len()
                    invariant
                        i <= rules.len(),
                        copy@ == rules@.take(i as int),
                    decreases rules.len() - i,
                {
                    copy.push(rules[i]);
                    i += 1;
                }
                Some(copy)
            },
            None => None,
        }
    }
}

} // verus!
