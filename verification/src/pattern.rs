//! Placing a fixed shape of live cells on the plane.

use crate::cells::{Cell, CellSet};
use crate::grid::shift;
use vstd::prelude::*;

verus! {

/// The cells that `pattern` covers when its offsets are taken from `anchor`.
pub open spec fn placed(pattern: Seq<Cell>, anchor: Cell) -> Set<Cell> {
    Set::new(
        |cell: Cell|
            exists|i: int|
                0 <= i < pattern.len() && cell == shift(
                    anchor,
                    (#[trigger] pattern[i]).0 as int,
                    pattern[i].1 as int,
                ),
    )
}

/// The live cells after `pattern` was placed at `anchor`: those that were
/// alive, and those that the pattern covers.
pub open spec fn spawned(live: Set<Cell>, pattern: Seq<Cell>, anchor: Cell) -> Set<Cell> {
    live.union(placed(pattern, anchor))
}

/// The offsets of the glider.
pub open spec fn glider_offsets() -> Seq<Cell> {
    seq![(0i32, 0i32), (2i32, 0i32), (1i32, 1i32), (2i32, 1i32), (1i32, 2i32)]
}

/// Makes alive every cell that `pattern` covers when its offsets are taken
/// from `anchor`. A cell that is alive already stays alive.
pub fn spawn(pattern: &[Cell], anchor: Cell, alive_cells: &mut CellSet)
    ensures
        final(alive_cells)@ == spawned(old(alive_cells)@, pattern@, anchor),
{
    for i in 0..pattern.len()
        invariant
            alive_cells@ == spawned(old(alive_cells)@, pattern@.take(i as int), anchor),
    {
        let offset = pattern[i];
        let cell = (anchor.0.wrapping_add(offset.0), anchor.1.wrapping_add(offset.1));
        if !alive_cells.contains(cell) {
            alive_cells.insert(cell);
        }
        proof {
            let before = pattern@.take(i as int);
            let after = pattern@.take(i + 1);
            assert(after[i as int] == offset);
            assert forall|c: Cell| placed(after, anchor).contains(c) <==> placed(
                before,
                anchor,
            ).contains(c) || c == cell by {
                if placed(after, anchor).contains(c) {
                    let j = choose|j: int|
                        0 <= j < after.len() && c == shift(
                            anchor,
                            (#[trigger] after[j]).0 as int,
                            after[j].1 as int,
                        );
                    if j < i {
                        assert(before[j] == after[j]);
                    }
                }
                if placed(before, anchor).contains(c) {
                    let j = choose|j: int|
                        0 <= j < before.len() && c == shift(
                            anchor,
                            (#[trigger] before[j]).0 as int,
                            before[j].1 as int,
                        );
                    assert(before[j] == after[j]);
                }
            }
            assert(alive_cells@ =~= spawned(old(alive_cells)@, after, anchor));
        }
    }
    proof {
        assert(pattern@.take(pattern@.len() as int) =~= pattern@);
    }
}

/// Places a glider with its corner at `glider_coords`.
pub fn spawn_glider(glider_coords: Cell, alive_cells: &mut CellSet)
    ensures
        final(alive_cells)@ == spawned(old(alive_cells)@, glider_offsets(), glider_coords),
{
    let glider: [Cell; 5] = [(0, 0), (2, 0), (1, 1), (2, 1), (1, 2)];
    assert(glider@ =~= glider_offsets());
    spawn(glider.as_slice(), glider_coords, alive_cells);
}

/// Placing a pattern a second time at the same anchor changes nothing.
pub proof fn lemma_spawn_twice(live: Set<Cell>, pattern: Seq<Cell>, anchor: Cell)
    ensures
        spawned(spawned(live, pattern, anchor), pattern, anchor) == spawned(live, pattern, anchor),
{
    assert(spawned(spawned(live, pattern, anchor), pattern, anchor) =~= spawned(
        live,
        pattern,
        anchor,
    ));
}

/// Placing a pattern takes no live cell away.
pub proof fn lemma_spawn_keeps(live: Set<Cell>, pattern: Seq<Cell>, anchor: Cell)
    ensures
        live.subset_of(spawned(live, pattern, anchor)),
{
}

} // verus!
