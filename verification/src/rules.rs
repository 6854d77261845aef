//! The thresholds on the number of live neighbours that decide a cell's fate.

use std::ops::Range;
use vstd::prelude::*;

verus! {

/// Four half-open ranges of neighbour counts. A usable set of conditions
/// cuts `0..10` into the four ranges, in the order of the fields.
#[derive(Debug)]
pub struct Conditions {
    /// Too few neighbours: the cell is dead in the next generation.
    pub underpop: Range<u8>,
    /// The cell keeps its state.
    pub same: Range<u8>,
    /// The cell is alive in the next generation.
    pub alive: Range<u8>,
    /// Too many neighbours: the cell is dead in the next generation.
    pub overpop: Range<u8>,
}

/// Whether `n` lies in the half-open range `r`.
pub open spec fn in_range(r: Range<u8>, n: int) -> bool {
    r.start <= n && n < r.end
}

/// 1 where `n` lies in the range `r`, else 0.
pub open spec fn holds(r: Range<u8>, n: int) -> nat {
    if in_range(r, n) {
        1
    } else {
        0
    }
}

impl Conditions {
    /// The ranges follow one another without a gap from 0 to 10.
    pub open spec fn is_valid(&self) -> bool {
        &&& self.underpop.start == 0
        &&& self.underpop.end == self.same.start
        &&& self.same.end == self.alive.start
        &&& self.alive.end == self.overpop.start
        &&& self.overpop.end == 10
    }

    /// No range ends before it starts.
    pub open spec fn is_ordered(&self) -> bool {
        &&& self.underpop.start <= self.underpop.end
        &&& self.same.start <= self.same.end
        &&& self.alive.start <= self.alive.end
        &&& self.overpop.start <= self.overpop.end
    }

    /// In how many of the four ranges `n` lies.
    pub open spec fn ranges_holding(&self, n: int) -> nat {
        holds(self.underpop, n) + holds(self.same, n) + holds(self.alive, n) + holds(
            self.overpop,
            n,
        )
    }

    /// The state that a cell with `neighbours` live neighbours has in the
    /// next generation.
    pub open spec fn next_state(&self, neighbours: int, is_alive: bool) -> bool {
        in_range(self.alive, neighbours) || (is_alive && in_range(self.same, neighbours))
    }

    /// Tells whether the ranges follow one another without a gap from 0 to 10.
    pub fn check_valid(&self) -> (valid: bool)
        ensures
            valid == self.is_valid(),
    {
        self.underpop.start == 0 && self.underpop.end == self.same.start && self.same.end
            == self.alive.start && self.alive.end == self.overpop.start && self.overpop.end == 10
    }

    /// Decides whether a cell is alive in the next generation: it is when its
    /// count of live neighbours lies in `alive`, or when it is alive now and
    /// the count lies in `same`.
    pub fn cell_next_state(&self, neighbours: u8, is_alive: bool) -> (next: bool)
        ensures
            next == self.next_state(neighbours as int, is_alive),
    {
        self.alive.contains(&neighbours) || (is_alive && self.same.contains(&neighbours))
    }
}

/// Valid conditions whose ranges are in order cut `0..10` into the four
/// ranges: each count from 0 to 9 lies in one range and in no other, and no
/// other number lies in any.
pub proof fn lemma_valid_ranges_partition(cond: Conditions, n: int)
    requires
        cond.is_valid(),
        cond.is_ordered(),
    ensures
        0 <= n < 10 ==> cond.ranges_holding(n) == 1,
        !(0 <= n < 10) ==> cond.ranges_holding(n) == 0,
{
}

/// Under valid conditions whose first range is not empty, and whose second
/// ends no earlier than it starts, a dead cell without a live neighbour
/// stays dead.
pub proof fn lemma_no_birth_from_nothing(cond: Conditions)
    requires
        cond.is_valid(),
        cond.underpop.end > 0,
        cond.same.start <= cond.same.end,
    ensures
        !cond.next_state(0, false),
{
}

impl Default for Conditions {
    /// The classical rules: a cell is born on three neighbours and stays
    /// alive on two or three.
    fn default() -> (cond: Self)
        ensures
            cond.underpop == (0u8..2u8),
            cond.same == (2u8..3u8),
            cond.alive == (3u8..4u8),
            cond.overpop == (4u8..10u8),
            cond.is_valid(),
            cond.is_ordered(),
    {
        Self { underpop: 0..2, same: 2..3, alive: 3..4, overpop: 4..10 }
    }
}

} // verus!
