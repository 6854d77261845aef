//! The set of live cells, kept in a standard hash set that hashes with aHash.
//!
//! vstd describes the standard hash set only for hashers that it knows, so
//! the calls into the set stand behind the six private functions below,
//! whose contracts are taken on trust. They rest on what the standard
//! library documents of `HashSet`, on pairs of `i32` being equal exactly when
//! both parts are and hashing alike when equal, and on aHash giving equal
//! keys the same hash within one set. Everything else in this file is
//! proved from them.

use ahash::HashSetExt;
use ahash::RandomState;
use std::collections::HashSet;
use vstd::prelude::*;
use vstd::set_lib::lemma_subset_equality;
use vstd::std_specs::cmp::PartialEqSpecImpl;

verus! {

/// A cell of the plane, by its column and its row.
pub type Cell = (i32, i32);

/// `ahash::RandomState`, the builder of the hashers that the set hashes
/// with. It is carried along and never looked into.
#[verifier::external_type_specification]
#[verifier::external_body]
pub struct ExRandomState(RandomState);

/// `ahash::HashSetExt::new`, which returns `HashSet::with_hasher` of a
/// default `RandomState`: a set that holds nothing.
#[verifier::external_body]
fn hashed_new() -> (set: HashSet<Cell, RandomState>)
    ensures
        set@ == Set::<Cell>::empty(),
{
    HashSetExt::new()
}

/// `HashSet::contains` on a set that hashes with aHash: whether the set
/// holds `cell`.
#[verifier::external_body]
fn hashed_contains(set: &HashSet<Cell, RandomState>, cell: &Cell) -> (found: bool)
    ensures
        found == set@.contains(*cell),
{
    set.contains(cell)
}

/// `HashSet::insert` on a set that hashes with aHash: afterwards the set
/// holds `cell` besides what it held, and the result tells whether `cell`
/// was new. The call does not unwind: integers are hashed and compared
/// without a panic.
#[verifier::external_body]
fn hashed_insert(set: &mut HashSet<Cell, RandomState>, cell: Cell) -> (fresh: bool)
    ensures
        final(set)@ == old(set)@.insert(cell),
        fresh == !old(set)@.contains(cell),
    no_unwind
{
    set.insert(cell)
}

/// `HashSet::remove` on a set that hashes with aHash: afterwards the set
/// holds what it held but `cell`, and the result tells whether it held
/// `cell`. The call does not unwind, for the same reason.
#[verifier::external_body]
fn hashed_remove(set: &mut HashSet<Cell, RandomState>, cell: &Cell) -> (found: bool)
    ensures
        final(set)@ == old(set)@.remove(*cell),
        found == old(set)@.contains(*cell),
    no_unwind
{
    set.remove(cell)
}

/// `HashSet::len` on a set that hashes with aHash: the number of cells in
/// the set.
#[verifier::external_body]
fn hashed_len(set: &HashSet<Cell, RandomState>) -> (len: usize)
    ensures
        len == set@.len(),
{
    set.len()
}

/// `HashSet::iter` on a set that hashes with aHash, with the cells it visits
/// copied into a vector: every cell of the set once. The order depends on the
/// keys that aHash drew, so nothing is said of it.
#[verifier::external_body]
fn hashed_cells(set: &HashSet<Cell, RandomState>) -> (cells: Vec<Cell>)
    ensures
        cells@.no_duplicates(),
        cells@.to_set() == set@,
{
    set.iter().copied().collect()
}

/// The live cells of the plane: each cell at most once, in no order. A cell
/// that is not in the set is dead.
#[derive(Debug)]
pub struct CellSet {
    cells: HashSet<Cell, RandomState>,
}

impl View for CellSet {
    type V = Set<Cell>;

    closed spec fn view(&self) -> Set<Cell> {
        self.cells@
    }
}

impl CellSet {
    /// A set of live cells is finite.
    #[verifier::type_invariant]
    spec fn is_finite(self) -> bool {
        self.cells@.finite()
    }

    /// A plane without a live cell.
    pub fn new() -> (set: Self)
        ensures
            set@ == Set::<Cell>::empty(),
    {
        CellSet { cells: hashed_new() }
    }

    /// Whether `cell` is alive.
    pub fn contains(&self, cell: Cell) -> (found: bool)
        ensures
            found == self@.contains(cell),
    {
        hashed_contains(&self.cells, &cell)
    }

    /// Makes `cell` alive, and tells whether it was dead before.
    pub fn insert(&mut self, cell: Cell) -> (fresh: bool)
        ensures
            final(self)@ == old(self)@.insert(cell),
            fresh == !old(self)@.contains(cell),
    {
        proof {
            use_type_invariant(&*self);
        }
        hashed_insert(&mut self.cells, cell)
    }

    /// Makes `cell` dead, and tells whether it was alive before.
    pub fn remove(&mut self, cell: Cell) -> (found: bool)
        ensures
            final(self)@ == old(self)@.remove(cell),
            found == old(self)@.contains(cell),
    {
        proof {
            use_type_invariant(&*self);
        }
        hashed_remove(&mut self.cells, &cell)
    }

    /// Makes `cell` dead if it is alive, and alive if it is dead. The result
    /// tells whether it is alive afterwards.
    pub fn toggle(&mut self, cell: Cell) -> (alive: bool)
        ensures
            alive == !old(self)@.contains(cell),
            final(self)@ == if alive {
                old(self)@.insert(cell)
            } else {
                old(self)@.remove(cell)
            },
    {
        if self.contains(cell) {
            self.remove(cell);
            false
        } else {
            self.insert(cell);
            true
        }
    }

    /// The number of live cells.
    pub fn len(&self) -> (len: usize)
        ensures
            self@.finite(),
            len == self@.len(),
    {
        proof {
            use_type_invariant(self);
        }
        hashed_len(&self.cells)
    }

    /// Whether no cell is alive.
    pub fn is_empty(&self) -> (empty: bool)
        ensures
            empty == (self@ == Set::<Cell>::empty()),
    {
        let len = self.len();
        proof {
            if len == 0 {
                self@.lemma_len0_is_empty();
            }
        }
        len == 0
    }

    /// Whether the same cells are alive in `self` and in `other`.
    pub fn same_cells(&self, other: &CellSet) -> (same: bool)
        ensures
            same == (self@ == other@),
    {
        if self.len() != other.len() {
            return false;
        }
        let mine = self.cells();
        for i in 0..mine.len()
            invariant
                mine@.to_set() == self@,
                forall|j: int| 0 <= j < i ==> other@.contains(#[trigger] mine@[j]),
        {
            if !other.contains(mine[i]) {
                assert(self@.contains(mine@[i as int]));
                return false;
            }
        }
        proof {
            use_type_invariant(self);
            use_type_invariant(other);
            assert(self@.subset_of(other@));
            lemma_subset_equality(self@, other@);
        }
        true
    }

    /// The live cells, each once, in no particular order.
    pub fn cells(&self) -> (cells: Vec<Cell>)
        ensures
            cells@.no_duplicates(),
            cells@.to_set() == self@,
    {
        hashed_cells(&self.cells)
    }
}

impl Default for CellSet {
    /// A plane without a live cell.
    fn default() -> (set: Self)
        ensures
            set@ == Set::<Cell>::empty(),
    {
        CellSet::new()
    }
}

impl PartialEq for CellSet {
    /// Two sets are equal when the same cells are alive in both.
    fn eq(&self, other: &Self) -> (same: bool) {
        self.same_cells(other)
    }
}

impl Eq for CellSet {

}

impl PartialEqSpecImpl for CellSet {
    open spec fn obeys_eq_spec() -> bool {
        true
    }

    open spec fn eq_spec(&self, other: &Self) -> bool {
        self@ == other@
    }
}

} // verus!
