//! The plane without an edge. The engine computes on cells whose columns and
//! rows are `i32`s and wrap round; as long as no live cell touches the edge
//! of what an `i32` holds, what it computes is a generation of the automaton
//! on the plane of all integers.

use crate::cells::Cell;
use crate::grid::{alive_at, fate, live_neighbours, next_generation, shift};
use crate::rules::Conditions;
use vstd::prelude::*;

verus! {

/// Whether `v` is the value of an `i32`.
pub open spec fn fits(v: int) -> bool {
    i32::MIN <= v <= i32::MAX
}

/// The points of the plane of all integers where `live` has its cells.
pub open spec fn on_plane(live: Set<Cell>) -> Set<(int, int)> {
    Set::new(|p: (int, int)| fits(p.0) && fits(p.1) && live.contains((p.0 as i32, p.1 as i32)))
}

/// 1 where the point `(x, y)` is alive in `live`, else 0.
pub open spec fn point_alive(live: Set<(int, int)>, x: int, y: int) -> nat {
    if live.contains((x, y)) {
        1
    } else {
        0
    }
}

/// How many of the eight points around `p` are alive in `live`.
pub open spec fn plane_neighbours(p: (int, int), live: Set<(int, int)>) -> nat {
    point_alive(live, p.0 - 1, p.1 - 1) + point_alive(live, p.0 - 1, p.1) + point_alive(
        live,
        p.0 - 1,
        p.1 + 1,
    ) + point_alive(live, p.0, p.1 - 1) + point_alive(live, p.0, p.1 + 1) + point_alive(
        live,
        p.0 + 1,
        p.1 - 1,
    ) + point_alive(live, p.0 + 1, p.1) + point_alive(live, p.0 + 1, p.1 + 1)
}

/// The generation after `live` on the plane of all integers: the rule,
/// applied to every point.
pub open spec fn plane_generation(live: Set<(int, int)>, cond: Conditions) -> Set<(int, int)> {
    Set::new(
        |p: (int, int)| cond.next_state(plane_neighbours(p, live) as int, live.contains(p)),
    )
}

/// No live cell lies in the first or last column or row that an `i32` can
/// number.
pub open spec fn clear_of_edge(live: Set<Cell>) -> bool {
    forall|cell: Cell| #[trigger]
        live.contains(cell) ==> i32::MIN < cell.0 < i32::MAX && i32::MIN < cell.1 < i32::MAX
}

/// A neighbour of a cell, where no live cell touches the edge, is alive
/// exactly if the point beside it on the plane of all integers is.
proof fn lemma_neighbour_on_plane(live: Set<Cell>, p: (int, int), dx: int, dy: int)
    requires
        clear_of_edge(live),
        fits(p.0),
        fits(p.1),
        -1 <= dx <= 1,
        -1 <= dy <= 1,
    ensures
        alive_at(live, shift((p.0 as i32, p.1 as i32), dx, dy)) == point_alive(
            on_plane(live),
            p.0 + dx,
            p.1 + dy,
        ),
{
    let cell = shift((p.0 as i32, p.1 as i32), dx, dy);
    if fits(p.0 + dx) && fits(p.1 + dy) {
        assert(cell == ((p.0 + dx) as i32, (p.1 + dy) as i32));
    } else {
        assert(cell.0 == i32::MIN || cell.0 == i32::MAX || cell.1 == i32::MIN || cell.1
            == i32::MAX);
    }
}

/// A point that no `i32`s number has no live neighbour, where no live cell
/// touches the edge.
proof fn lemma_nothing_beyond_edge(live: Set<Cell>, p: (int, int), dx: int, dy: int)
    requires
        clear_of_edge(live),
        !(fits(p.0) && fits(p.1)),
        -1 <= dx <= 1,
        -1 <= dy <= 1,
    ensures
        point_alive(on_plane(live), p.0 + dx, p.1 + dy) == 0,
{
    if fits(p.0 + dx) && fits(p.1 + dy) {
        let cell = ((p.0 + dx) as i32, (p.1 + dy) as i32);
        assert(cell.0 == i32::MIN || cell.0 == i32::MAX || cell.1 == i32::MIN || cell.1
            == i32::MAX);
    }
}

/// Where no live cell touches the edge, and the conditions leave a dead cell
/// without live neighbours dead, a step of the engine is a generation on the
/// plane of all integers: every point gets the state that the rule gives it.
pub proof fn lemma_step_on_plane(live: Set<Cell>, cond: Conditions)
    requires
        clear_of_edge(live),
        !cond.next_state(0, false),
    ensures
        on_plane(next_generation(live, cond)) == plane_generation(on_plane(live), cond),
{
    crate::grid::lemma_step_is_rule_everywhere(live, cond);
    assert forall|p: (int, int)|
        on_plane(next_generation(live, cond)).contains(p) <==> plane_generation(
            on_plane(live),
            cond,
        ).contains(p) by {
        if fits(p.0) && fits(p.1) {
            let cell = (p.0 as i32, p.1 as i32);
            lemma_neighbour_on_plane(live, p, -1, -1);
            lemma_neighbour_on_plane(live, p, -1, 0);
            lemma_neighbour_on_plane(live, p, -1, 1);
            lemma_neighbour_on_plane(live, p, 0, -1);
            lemma_neighbour_on_plane(live, p, 0, 1);
            lemma_neighbour_on_plane(live, p, 1, -1);
            lemma_neighbour_on_plane(live, p, 1, 0);
            lemma_neighbour_on_plane(live, p, 1, 1);
            assert(live_neighbours(cell, live) == plane_neighbours(p, on_plane(live)));
            assert(next_generation(live, cond).contains(cell) == fate(cell, live, cond));
        } else {
            lemma_nothing_beyond_edge(live, p, -1, -1);
            lemma_nothing_beyond_edge(live, p, -1, 0);
            lemma_nothing_beyond_edge(live, p, -1, 1);
            lemma_nothing_beyond_edge(live, p, 0, -1);
            lemma_nothing_beyond_edge(live, p, 0, 1);
            lemma_nothing_beyond_edge(live, p, 1, -1);
            lemma_nothing_beyond_edge(live, p, 1, 0);
            lemma_nothing_beyond_edge(live, p, 1, 1);
            assert(plane_neighbours(p, on_plane(live)) == 0);
        }
    }
    assert(on_plane(next_generation(live, cond)) =~= plane_generation(on_plane(live), cond));
}

} // verus!
