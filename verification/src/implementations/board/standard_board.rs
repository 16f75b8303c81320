//! A board of fixed size with a reverse index from pieces to squares.

use vstd::prelude::*;
use std::collections::HashMap;
use std::marker::PhantomData;
use crate::board::board_slice::BoardSlice;
use crate::board::{first_holding, occupied_squares, squares_coded, Board};
use crate::piece::Piece;
use crate::piece::piece_id::{code_kind, signed_code, PieceId};
use crate::piece::piece_pos::PiecePos;
use crate::piece::sign::Sign;

verus! {

broadcast use vstd::std_specs::hash::group_hash_axioms;

/// The squares below `n` that hold `code` in a layout, in ascending order.
pub open spec fn squares_with(layout: Seq<isize>, code: isize, n: int) -> Seq<usize>
    decreases n,
{
    if n <= 0 {
        Seq::empty()
    } else if n <= layout.len() && layout[n - 1] == code {
        squares_with(layout, code, n - 1).push((n - 1) as usize)
    } else {
        squares_with(layout, code, n - 1)
    }
}

/// The key that a layout gives to the square `s`: the code found there, with
/// the number of earlier squares of the same code as its version.
pub open spec fn initial_cell(layout: Seq<isize>, s: int) -> (isize, usize) {
    if layout[s] == 0 {
        (0isize, 0usize)
    } else {
        (layout[s], squares_with(layout, layout[s], s).len() as usize)
    }
}

/// A square that holds `code` is found in the list of such squares at the
/// place that its version names.
pub proof fn lemma_squares_with_at(layout: Seq<isize>, code: isize, s: int, n: int)
    requires
        0 <= s < n <= layout.len() <= usize::MAX,
        layout[s] == code,
    ensures
        squares_with(layout, code, s).len() < squares_with(layout, code, n).len(),
        squares_with(layout, code, n)[squares_with(layout, code, s).len() as int] == s,
        squares_with(layout, code, n).len() <= n,
    decreases n,
{
    lemma_squares_with_len(layout, code, s);
    lemma_squares_with_len(layout, code, n);
    if n - 1 > s {
        lemma_squares_with_at(layout, code, s, n - 1);
    }
}

/// There are no more squares of a code below `n` than squares below `n`.
pub proof fn lemma_squares_with_len(layout: Seq<isize>, code: isize, n: int)
    requires
        0 <= n,
    ensures
        squares_with(layout, code, n).len() <= n,
    decreases n,
{
    if n > 0 {
        lemma_squares_with_len(layout, code, n - 1);
    }
}

/// What the lowest-square search finds: a square that holds the key, below
/// which no square holds it, or nothing where no square holds it.
pub proof fn lemma_first_holding(cells: Seq<(isize, usize)>, key: (isize, usize), n: int)
    requires
        0 <= n <= cells.len() <= usize::MAX,
    ensures
        first_holding(cells, key, n) matches Some(s) ==> s < n && cells[s as int] == key && forall|
            t: int,
        |
            0 <= t < s ==> #[trigger] cells[t] != key,
        first_holding(cells, key, n) is None ==> forall|t: int|
            0 <= t < n ==> #[trigger] cells[t] != key,
    decreases n,
{
    if n > 0 {
        lemma_first_holding(cells, key, n - 1);
    }
}

/// The reverse index after a piece was placed on `square`: the slot of a
/// registered piece names the square, and nothing changes for a piece
/// without a slot.
pub open spec fn reindexed(index: Map<isize, Seq<usize>>, key: (isize, usize), square: usize) -> Map<
    isize,
    Seq<usize>,
> {
    if index.contains_key(key.0) && key.1 < index[key.0].len() {
        index.insert(key.0, index[key.0].update(key.1 as int, square))
    } else {
        index
    }
}

/// The storage of a board: the key on each square, and for each registered
/// signed code the squares of its versions.
pub struct BoardHelper<const T_ROW_SIZE: usize, const T_COL_SIZE: usize, const T_BOARD_SIZE: usize> {
    ids_per_position: Vec<(isize, usize)>,
    positions_per_version: HashMap<isize, Vec<usize>>,
}

impl<
    const T_ROW_SIZE: usize,
    const T_COL_SIZE: usize,
    const T_BOARD_SIZE: usize,
> BoardHelper<T_ROW_SIZE, T_COL_SIZE, T_BOARD_SIZE> {
    /// The key held by each square.
    pub closed spec fn cells(&self) -> Seq<(isize, usize)> {
        self.ids_per_position@
    }

    /// The reverse index: for each registered signed code, the square that
    /// was last given to each of its versions.
    pub closed spec fn index(&self) -> Map<isize, Seq<usize>> {
        Map::new(
            |code: isize| self.positions_per_version@.contains_key(code),
            |code: isize| self.positions_per_version@[code]@,
        )
    }

    /// The squares are the grid and every code on them has a kind.
    pub open spec fn wf(&self) -> bool {
        &&& self.cells().len() == T_BOARD_SIZE
        &&& T_ROW_SIZE * T_COL_SIZE == T_BOARD_SIZE
        &&& forall|s: int| 0 <= s < self.cells().len() ==> (#[trigger] self.cells()[s]).0 != isize::MIN
    }

    /// Whether the reverse index has a slot for the piece.
    pub open spec fn registered(&self, key: (isize, usize)) -> bool {
        self.index().contains_key(key.0) && key.1 < self.index()[key.0].len()
    }

    /// The square in the reverse index's slot for a registered piece.
    pub open spec fn slot(&self, key: (isize, usize)) -> usize {
        self.index()[key.0][key.1 as int]
    }

    /// Every occupied square agrees with the reverse index: its occupant is
    /// registered and the occupant's slot names the square.
    pub open spec fn consistent(&self) -> bool {
        forall|s: int|
            0 <= s < self.cells().len() && (#[trigger] self.cells()[s]).0 != 0 ==> self.registered(
                self.cells()[s],
            ) && self.slot(self.cells()[s]) == s
    }

    /// Where a lookup finds a piece: on the square of its slot if that square
    /// holds it, and else on the lowest square that holds it.
    pub open spec fn position(&self, key: (isize, usize)) -> Option<usize> {
        if key.0 == 0 {
            None
        } else if self.registered(key) && self.slot(key) < self.cells().len() && self.cells()[self.slot(
            key,
        ) as int] == key {
            Some(self.slot(key))
        } else {
            first_holding(self.cells(), key, self.cells().len() as int)
        }
    }

    /// Builds the storage from a layout of signed codes. Versions are given
    /// in index order; every code that occurs is registered.
    pub fn new(initial_state: [isize; T_BOARD_SIZE]) -> (helper: Self)
        requires
            T_ROW_SIZE * T_COL_SIZE == T_BOARD_SIZE,
            forall|s: int| 0 <= s < T_BOARD_SIZE ==> initial_state@[s] != isize::MIN,
        ensures
            helper.wf(),
            helper.consistent(),
            forall|s: int|
                0 <= s < T_BOARD_SIZE ==> #[trigger] helper.cells()[s] == initial_cell(
                    initial_state@,
                    s,
                ),
            forall|code: isize| #[trigger]
                helper.index().contains_key(code) <==> code != 0 && squares_with(
                    initial_state@,
                    code,
                    T_BOARD_SIZE as int,
                ).len() > 0,
            forall|code: isize| #[trigger]
                helper.index().contains_key(code) ==> helper.index()[code] == squares_with(
                    initial_state@,
                    code,
                    T_BOARD_SIZE as int,
                ),
    {
        let mut ids_per_position: Vec<(isize, usize)> = Vec::new();
        let mut positions_per_version: HashMap<isize, Vec<usize>> = HashMap::new();
        let ghost layout = initial_state@;
        let mut pos: usize = 0;
        while pos < T_BOARD_SIZE
            invariant
                pos <= T_BOARD_SIZE,
                layout == initial_state@,
                layout.len() == T_BOARD_SIZE,
                ids_per_position@.len() == pos,
                forall|s: int| 0 <= s < pos ==> #[trigger] ids_per_position@[s] == initial_cell(layout, s),
                forall|code: isize| #[trigger]
                    positions_per_version@.contains_key(code) <==> code != 0 && squares_with(
                        layout,
                        code,
                        pos as int,
                    ).len() > 0,
                forall|code: isize| #[trigger]
                    positions_per_version@.contains_key(code) ==> positions_per_version@[code]@
                        == squares_with(layout, code, pos as int),
            decreases T_BOARD_SIZE - pos,
        {
            let code = initial_state[pos];
            if code == 0 {
                ids_per_position.push((0, 0));
            } else {
                let mut squares = match positions_per_version.remove(&code) {
                    Some(squares) => squares,
                    None => Vec::new(),
                };
                assert(squares@ =~= squares_with(layout, code, pos as int));
                let version = squares.len();
                squares.push(pos);
                positions_per_version.insert(code, squares);
                ids_per_position.push((code, version));
            }
            pos += 1;
        }
        let helper = BoardHelper { ids_per_position, positions_per_version };
        proof {
            assert forall|s: int|
                0 <= s < helper.cells().len() && (#[trigger] helper.cells()[s]).0
                    != 0 implies helper.registered(helper.cells()[s]) && helper.slot(
                helper.cells()[s],
            ) == s by {
                let code = layout[s];
                lemma_squares_with_at(layout, code, s, T_BOARD_SIZE as int);
                assert(helper.ids_per_position@[s] == initial_cell(layout, s));
                assert(helper.positions_per_version@.contains_key(code));
                assert(helper.index()[code] == squares_with(layout, code, T_BOARD_SIZE as int));
            }
        }
        helper
    }

    /// The number of versions for which the reverse index has a slot under
    /// a signed code.
    pub fn slots(&self, code: isize) -> (count: usize)
        ensures
            count == if self.index().contains_key(code) {
                self.index()[code].len()
            } else {
                0
            },
    {
        match self.positions_per_version.get(&code) {
            Some(squares) => squares.len(),
            None => 0,
        }
    }

    /// The key on a square.
    pub fn get_id(&self, pos: usize) -> (key: (isize, usize))
        requires
            self.wf(),
            pos < T_BOARD_SIZE,
        ensures
            key == self.cells()[pos as int],
            key.0 != isize::MIN,
    {
        self.ids_per_position[pos]
    }

    /// The square on which a lookup finds a piece.
    pub fn get_pos(&self, key: (isize, usize)) -> (square: Option<usize>)
        requires
            self.wf(),
        ensures
            square == self.position(key),
    {
        if key.0 == 0 {
            return None;
        }
        match self.positions_per_version.get(&key.0) {
            Some(squares) => {
                if key.1 < squares.len() {
                    let slot = squares[key.1];
                    if slot < T_BOARD_SIZE {
                        let held = self.ids_per_position[slot];
                        if held.0 == key.0 && held.1 == key.1 {
                            return Some(slot);
                        }
                    }
                }
            },
            None => {},
        }
        let mut s: usize = 0;
        while s < T_BOARD_SIZE
            invariant
                s <= T_BOARD_SIZE,
                self.cells().len() == T_BOARD_SIZE,
                key.0 != 0,
                !(self.registered(key) && self.slot(key) < self.cells().len() && self.cells()[self.slot(
                    key,
                ) as int] == key),
                first_holding(self.cells(), key, s as int) is None,
            decreases T_BOARD_SIZE - s,
        {
            let held = self.ids_per_position[s];
            if held.0 == key.0 && held.1 == key.1 {
                assert(first_holding(self.cells(), key, s + 1) == Some(s));
                proof {
                    lemma_first_holding_stays(self.cells(), key, s + 1, T_BOARD_SIZE as int);
                }
                return Some(s);
            }
            s += 1;
        }
        None
    }

    /// Puts a key on a square and, if the piece is registered, points its
    /// slot at the square. Nothing else changes.
    pub fn set(&mut self, key: (isize, usize), pos: usize)
        requires
            old(self).wf(),
            pos < T_BOARD_SIZE,
            key.0 != isize::MIN,
        ensures
            final(self).wf(),
            final(self).cells() == old(self).cells().update(pos as int, key),
            final(self).index() == reindexed(old(self).index(), key, pos),
            old(self).consistent() && (key.0 == 0 || (old(self).registered(key) && forall|s: int|
                0 <= s < T_BOARD_SIZE && s != pos ==> #[trigger] old(self).cells()[s] != key))
                ==> final(self).consistent(),
    {
        let ghost before = self.index();
        self.ids_per_position.set(pos, key);
        match self.positions_per_version.remove(&key.0) {
            Some(squares) => {
                let mut squares = squares;
                if key.1 < squares.len() {
                    squares.set(key.1, pos);
                }
                self.positions_per_version.insert(key.0, squares);
            },
            None => {},
        }
        assert(self.index() =~= reindexed(before, key, pos));
    }

    /// The signed codes of a row, from its first column to its last.
    pub fn row(&self, row: usize) -> (codes: [isize; T_ROW_SIZE])
        requires
            self.wf(),
            row < T_COL_SIZE,
        ensures
            forall|k: int|
                0 <= k < T_ROW_SIZE ==> #[trigger] codes@[k] == self.cells()[row * T_ROW_SIZE + k].0,
    {
        let mut array = [0isize;T_ROW_SIZE];
        let mut u: usize = 0;
        assert((row + 1) * T_ROW_SIZE <= T_COL_SIZE * T_ROW_SIZE && (row + 1) * T_ROW_SIZE == row
            * T_ROW_SIZE + T_ROW_SIZE && T_COL_SIZE * T_ROW_SIZE == T_ROW_SIZE * T_COL_SIZE && 0
            <= row * T_ROW_SIZE) by (nonlinear_arith)
            requires
                row < T_COL_SIZE,
        ;
        while u < T_ROW_SIZE
            invariant
                u <= T_ROW_SIZE,
                self.wf(),
                0 <= row * T_ROW_SIZE,
                row * T_ROW_SIZE + T_ROW_SIZE <= T_BOARD_SIZE,
                forall|k: int|
                    0 <= k < u ==> #[trigger] array@[k] == self.cells()[row * T_ROW_SIZE + k].0,
            decreases T_ROW_SIZE - u,
        {
            array[u] = self.ids_per_position[row * T_ROW_SIZE + u].0;
            u += 1;
        }
        array
    }

    /// The signed codes of a column, from its first row to its last.
    pub fn col(&self, col: usize) -> (codes: [isize; T_COL_SIZE])
        requires
            self.wf(),
            col < T_ROW_SIZE,
        ensures
            forall|k: int|
                0 <= k < T_COL_SIZE ==> #[trigger] codes@[k] == self.cells()[col + k * T_ROW_SIZE].0,
    {
        let mut array = [0isize;T_COL_SIZE];
        let mut u: usize = 0;
        while u < T_COL_SIZE
            invariant
                u <= T_COL_SIZE,
                self.wf(),
                col < T_ROW_SIZE,
                forall|k: int|
                    0 <= k < u ==> #[trigger] array@[k] == self.cells()[col + k * T_ROW_SIZE].0,
            decreases T_COL_SIZE - u,
        {
            assert((u + 1) * T_ROW_SIZE <= T_COL_SIZE * T_ROW_SIZE && (u + 1) * T_ROW_SIZE == u
                * T_ROW_SIZE + T_ROW_SIZE && T_COL_SIZE * T_ROW_SIZE == T_ROW_SIZE * T_COL_SIZE
                && 0 <= u * T_ROW_SIZE) by (nonlinear_arith)
                requires
                    u < T_COL_SIZE,
            ;
            array[u] = self.ids_per_position[col + u * T_ROW_SIZE].0;
            u += 1;
        }
        array
    }

    /// Empties every square and forgets every registration.
    pub fn clear(&mut self)
        requires
            old(self).wf(),
        ensures
            final(self).wf(),
            final(self).consistent(),
            final(self).cells() == Seq::new(T_BOARD_SIZE as nat, |s: int| (0isize, 0usize)),
            final(self).index() == Map::<isize, Seq<usize>>::empty(),
    {
        let mut ids_per_position: Vec<(isize, usize)> = Vec::new();
        let mut s: usize = 0;
        while s < T_BOARD_SIZE
            invariant
                s <= T_BOARD_SIZE,
                ids_per_position@.len() == s,
                forall|t: int| 0 <= t < s ==> #[trigger] ids_per_position@[t] == (0isize, 0usize),
            decreases T_BOARD_SIZE - s,
        {
            ids_per_position.push((0, 0));
            s += 1;
        }
        self.ids_per_position = ids_per_position;
        self.positions_per_version = HashMap::new();
        assert(self.cells() =~= Seq::new(T_BOARD_SIZE as nat, |s: int| (0isize, 0usize)));
        assert(self.index() =~= Map::<isize, Seq<usize>>::empty());
    }
}

/// Once the lowest-square search has found a square, looking further finds
/// the same square.
pub proof fn lemma_first_holding_stays(
    cells: Seq<(isize, usize)>,
    key: (isize, usize),
    m: int,
    n: int,
)
    requires
        0 <= m <= n,
        first_holding(cells, key, m) is Some,
    ensures
        first_holding(cells, key, n) == first_holding(cells, key, m),
    decreases n,
{
    if n > m {
        lemma_first_holding_stays(cells, key, m, n - 1);
    }
}

/// The kind values found on the squares below `n`, each once, in the order
/// in which the squares first show them.
pub open spec fn kinds_on(cells: Seq<(isize, usize)>, n: int) -> Seq<int>
    decreases n,
{
    if n <= 0 {
        Seq::empty()
    } else if n <= cells.len() && cells[n - 1].0 != 0 && !kinds_on(cells, n - 1).contains(
        code_kind(cells[n - 1].0 as int),
    ) {
        kinds_on(cells, n - 1).push(code_kind(cells[n - 1].0 as int))
    } else {
        kinds_on(cells, n - 1)
    }
}

/// A board of `T_ROW_SIZE` columns and `T_COL_SIZE` rows, with
/// `T_BOARD_SIZE` squares in all, for pieces of the taxonomy `P`.
pub struct StandardBoard<
    const T_ROW_SIZE: usize,
    const T_COL_SIZE: usize,
    const T_BOARD_SIZE: usize,
    P: Piece,
> {
    pub helper: BoardHelper<T_ROW_SIZE, T_COL_SIZE, T_BOARD_SIZE>,
    pub __: PhantomData<P>,
}

impl<
    const T_ROW_SIZE: usize,
    const T_COL_SIZE: usize,
    const T_BOARD_SIZE: usize,
    P: Piece,
> StandardBoard<T_ROW_SIZE, T_COL_SIZE, T_BOARD_SIZE, P> {
    /// Every occupied square agrees with the reverse index.
    pub open spec fn consistent(&self) -> bool {
        self.helper.consistent()
    }

    /// The board that a layout of signed codes describes: the code at index
    /// `s` stands on square `s`, with the number of earlier squares of the
    /// same code as its version.
    pub fn new(initial_state: [isize; T_BOARD_SIZE]) -> (board: Self)
        requires
            T_ROW_SIZE * T_COL_SIZE == T_BOARD_SIZE,
            forall|s: int| 0 <= s < T_BOARD_SIZE ==> initial_state@[s] != isize::MIN,
        ensures
            board.wf(),
            board.consistent(),
            board.row_size() == T_ROW_SIZE,
            board.col_size() == T_COL_SIZE,
            board.cells().len() == T_BOARD_SIZE,
            forall|s: int|
                0 <= s < T_BOARD_SIZE ==> #[trigger] board.cells()[s] == initial_cell(
                    initial_state@,
                    s,
                ),
            forall|code: isize| #[trigger]
                board.helper.index().contains_key(code) <==> code != 0 && squares_with(
                    initial_state@,
                    code,
                    T_BOARD_SIZE as int,
                ).len() > 0,
            forall|code: isize| #[trigger]
                board.helper.index().contains_key(code) ==> board.helper.index()[code]
                    == squares_with(initial_state@, code, T_BOARD_SIZE as int),
    {
        StandardBoard { helper: BoardHelper::new(initial_state), __: PhantomData }
    }

    /// The kinds of the pieces on the board, each once, in the order in
    /// which the squares first show them.
    pub fn get_all_pieces(&self) -> (kinds: Vec<P>)
        requires
            self.wf(),
        ensures
            kinds@.len() == kinds_on(self.cells(), T_BOARD_SIZE as int).len(),
            forall|i: int|
                0 <= i < kinds@.len() ==> #[trigger] kinds@[i] == P::of_value(
                    kinds_on(self.cells(), T_BOARD_SIZE as int)[i],
                ),
            kinds@.map_values(|kind: P| kind.value()) == kinds_on(
                self.cells(),
                T_BOARD_SIZE as int,
            ),
    {
        let mut kinds: Vec<P> = Vec::new();
        let mut s: usize = 0;
        while s < T_BOARD_SIZE
            invariant
                s <= T_BOARD_SIZE,
                self.wf(),
                kinds@.map_values(|kind: P| kind.value()) == kinds_on(self.cells(), s as int),
                forall|i: int|
                    0 <= i < kinds@.len() ==> #[trigger] kinds@[i] == P::of_value(
                        kinds_on(self.cells(), s as int)[i],
                    ),
            decreases T_BOARD_SIZE - s,
        {
            let code = self.helper.get_id(s).0;
            if code != 0 {
                let kind_value = if code < 0 {
                    -code
                } else {
                    code
                };
                let ghost seen = kinds@.map_values(|kind: P| kind.value());
                let mut known = false;
                let mut i: usize = 0;
                while i < kinds.len()
                    invariant
                        i <= kinds.len(),
                        seen == kinds@.map_values(|kind: P| kind.value()),
                        known <==> exists|j: int| 0 <= j < i && #[trigger] seen[j] == kind_value,
                    decreases kinds.len() - i,
                {
                    if kinds[i].to_value() == kind_value {
                        assert(seen[i as int] == kind_value);
                        known = true;
                    }
                    i += 1;
                }
                if !known {
                    kinds.push(P::from_value(kind_value));
                    assert(kinds@.map_values(|kind: P| kind.value()) =~= seen.push(
                        kind_value as int,
                    ));
                }
            }
            s += 1;
        }
        kinds
    }

    /// The versions for which the reverse index has a slot under the signed
    /// code of the kind on the side, in ascending order.
    pub fn get_all_versions(&self, piece: P, sign: Sign) -> (versions: Vec<usize>)
        requires
            self.wf(),
        ensures
            versions@ == Seq::new(
                if self.helper.index().contains_key(signed_code(piece.value(), sign) as isize) {
                    self.helper.index()[signed_code(piece.value(), sign) as isize].len()
                } else {
                    0
                },
                |version: int| version as usize,
            ),
    {
        let code = PieceId(piece, sign, 0).i();
        let slots = self.helper.slots(code);
        let mut versions: Vec<usize> = Vec::new();
        let mut version: usize = 0;
        while version < slots
            invariant
                version <= slots,
                versions@ == Seq::new(version as nat, |version: int| version as usize),
            decreases slots - version,
        {
            versions.push(version);
            assert(versions@ =~= Seq::new((version + 1) as nat, |version: int| version as usize));
            version += 1;
        }
        versions
    }

    /// The signed codes of a row, from its first column to its last.
    pub fn row(&self, row: usize) -> (codes: [isize; T_ROW_SIZE])
        requires
            self.wf(),
            row < T_COL_SIZE,
        ensures
            forall|k: int|
                0 <= k < T_ROW_SIZE ==> #[trigger] codes@[k] == self.cells()[row * T_ROW_SIZE + k].0,
    {
        self.helper.row(row)
    }

    /// The signed codes of a column, from its first row to its last.
    pub fn col(&self, col: usize) -> (codes: [isize; T_COL_SIZE])
        requires
            self.wf(),
            col < T_ROW_SIZE,
        ensures
            forall|k: int|
                0 <= k < T_COL_SIZE ==> #[trigger] codes@[k] == self.cells()[col + k * T_ROW_SIZE].0,
    {
        self.helper.col(col)
    }

    /// On a consistent board, looking up the occupant of an occupied square
    /// gives that square back.
    pub proof fn lemma_lookup_round_trip(&self, s: int)
        requires
            self.wf(),
            self.consistent(),
            0 <= s < self.cells().len(),
            self.cells()[s].0 != 0,
        ensures
            self.position(self.cells()[s]) == Some(s as usize),
    {
    }

    /// On a consistent board no piece stands on two squares.
    pub proof fn lemma_one_square_each(&self, s: int, t: int)
        requires
            self.wf(),
            self.consistent(),
            0 <= s < self.cells().len(),
            0 <= t < self.cells().len(),
            self.cells()[s].0 != 0,
            self.cells()[s] == self.cells()[t],
        ensures
            s == t,
    {
    }
}

impl<
    const T_ROW_SIZE: usize,
    const T_COL_SIZE: usize,
    const T_BOARD_SIZE: usize,
    P: Piece,
> Board for StandardBoard<T_ROW_SIZE, T_COL_SIZE, T_BOARD_SIZE, P> {
    type PieceType = P;

    open spec fn wf(&self) -> bool {
        self.helper.wf()
    }

    open spec fn row_size(&self) -> nat {
        T_ROW_SIZE as nat
    }

    open spec fn col_size(&self) -> nat {
        T_COL_SIZE as nat
    }

    open spec fn cells(&self) -> Seq<(isize, usize)> {
        self.helper.cells()
    }

    open spec fn position(&self, key: (isize, usize)) -> Option<usize> {
        self.helper.position(key)
    }

    proof fn lemma_wf(&self) {
    }

    proof fn lemma_position(&self, key: (isize, usize)) {
        lemma_first_holding(self.cells(), key, self.cells().len() as int);
    }

    fn get_row_size(&self) -> (n: usize) {
        T_ROW_SIZE
    }

    fn get_col_size(&self) -> (n: usize) {
        T_COL_SIZE
    }

    fn get_board_size(&self) -> (n: usize) {
        T_BOARD_SIZE
    }

    fn piece_slice(&self, ids: &[PieceId<P>]) -> (slice: BoardSlice) {
        let ghost codes = Seq::new(ids@.len(), |i: int| ids@[i].code());
        let mut squares: Vec<usize> = Vec::new();
        let mut s: usize = 0;
        while s < T_BOARD_SIZE
            invariant
                s <= T_BOARD_SIZE,
                self.wf(),
                codes == Seq::new(ids@.len(), |i: int| ids@[i].code()),
                squares@ == squares_coded(self.cells(), codes, s as int),
            decreases T_BOARD_SIZE - s,
        {
            let code = self.helper.get_id(s).0;
            let mut found = false;
            let mut i: usize = 0;
            while i < ids.len()
                invariant
                    i <= ids.len(),
                    codes == Seq::new(ids@.len(), |i: int| ids@[i].code()),
                    found <==> exists|j: int| 0 <= j < i && #[trigger] codes[j] == code,
                decreases ids.len() - i,
            {
                if ids[i].i() == code {
                    assert(codes[i as int] == code);
                    found = true;
                }
                i += 1;
            }
            if found {
                squares.push(s);
            }
            s += 1;
        }
        BoardSlice(squares)
    }

    fn get_slice(&self) -> (slice: BoardSlice) {
        let mut squares: Vec<usize> = Vec::new();
        let mut s: usize = 0;
        while s < T_BOARD_SIZE
            invariant
                s <= T_BOARD_SIZE,
                self.wf(),
                squares@ == occupied_squares(self.cells(), s as int),
            decreases T_BOARD_SIZE - s,
        {
            if self.helper.get_id(s).0 != 0 {
                squares.push(s);
            }
            s += 1;
        }
        BoardSlice(squares)
    }

    fn get_id(&self, pos: &PiecePos) -> (r: Option<PieceId<P>>) {
        let u = pos.u();
        if u >= T_BOARD_SIZE {
            return None;
        }
        let key = self.helper.get_id(u);
        Some(PieceId::from_code(key.0, key.1))
    }

    fn get_id_not_none(&self, pos: &PiecePos) -> (r: Option<PieceId<P>>) {
        match self.get_id(pos) {
            Some(id) => {
                if !id.is_none() {
                    Some(id)
                } else {
                    None
                }
            },
            None => None,
        }
    }

    fn get_pos(&self, id: &PieceId<P>) -> (r: Option<PiecePos>) {
        proof {
            self.lemma_position(id.key());
        }
        match self.helper.get_pos(id.as_key()) {
            Some(square) => Some(PiecePos(square, T_ROW_SIZE)),
            None => None,
        }
    }

    fn set_square(&mut self, id: &PieceId<P>, square: usize)
        ensures
            final(self).helper.index() == reindexed(old(self).helper.index(), id.key(), square),
            old(self).consistent() && (id.key().0 == 0 || (old(self).helper.registered(id.key())
                && forall|s: int|
                0 <= s < T_BOARD_SIZE && s != square ==> #[trigger] old(self).cells()[s]
                    != id.key())) ==> final(self).consistent(),
    {
        self.helper.set(id.as_key(), square);
    }

    fn clear(&mut self)
        ensures
            final(self).consistent(),
            final(self).helper.index() == Map::<isize, Seq<usize>>::empty(),
    {
        self.helper.clear();
    }
}

} // verus!
