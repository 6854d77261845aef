//! One generation of the automaton: the neighbour count of a cell, and the
//! step from one set of live cells to the next.

use crate::cells::{Cell, CellSet};
use crate::rules::Conditions;
use vstd::prelude::*;
use vstd::wrapping::i32_specs::wrapping_add;

verus! {

/// The cell `dx` columns and `dy` rows from `cell`. At the edge of what an
/// `i32` holds the plane wraps round.
pub open spec fn shift(cell: Cell, dx: int, dy: int) -> Cell {
    (wrapping_add(cell.0, dx as i32), wrapping_add(cell.1, dy as i32))
}

/// 1 where `cell` is alive in `live`, else 0.
pub open spec fn alive_at(live: Set<Cell>, cell: Cell) -> nat {
    if live.contains(cell) {
        1
    } else {
        0
    }
}

/// How many of the eight cells around `cell` are alive in `live`.
pub open spec fn live_neighbours(cell: Cell, live: Set<Cell>) -> nat {
    alive_at(live, shift(cell, -1, -1)) + alive_at(live, shift(cell, -1, 0)) + alive_at(
        live,
        shift(cell, -1, 1),
    ) + alive_at(live, shift(cell, 0, -1)) + alive_at(live, shift(cell, 0, 1)) + alive_at(
        live,
        shift(cell, 1, -1),
    ) + alive_at(live, shift(cell, 1, 0)) + alive_at(live, shift(cell, 1, 1))
}

/// How many of the first `n` cells of `around` are alive in `live`.
spec fn live_among(around: Seq<Cell>, live: Set<Cell>, n: nat) -> nat
    decreases n,
{
    if n == 0 {
        0
    } else {
        live_among(around, live, (n - 1) as nat) + alive_at(live, around[n - 1])
    }
}

/// Counts the live cells among the eight neighbours of `cell`.
pub fn get_nbghr_nb(cell: Cell, alive_cells: &CellSet) -> (nb: u8)
    ensures
        nb == live_neighbours(cell, alive_cells@),
        nb <= 8,
{
    let (x, y) = cell;
    let nghbrs: [Cell; 8] = [
        (x.wrapping_add(-1), y.wrapping_add(-1)),
        (x.wrapping_add(-1), y),
        (x.wrapping_add(-1), y.wrapping_add(1)),
        (x, y.wrapping_add(-1)),
        (x, y.wrapping_add(1)),
        (x.wrapping_add(1), y.wrapping_add(-1)),
        (x.wrapping_add(1), y),
        (x.wrapping_add(1), y.wrapping_add(1)),
    ];
    let mut nb: u8 = 0;
    for i in 0..8usize
        invariant
            nb == live_among(nghbrs@, alive_cells@, i as nat),
            nb <= i,
    {
        if alive_cells.contains(nghbrs[i]) {
            nb += 1;
        }
    }
    proof {
        reveal_with_fuel(live_among, 9);
    }
    nb
}

/// The nine cells of the square around `centre`: the cell and its eight
/// neighbours.
pub open spec fn block(centre: Cell) -> Seq<Cell> {
    seq![
        shift(centre, -1, -1),
        shift(centre, -1, 0),
        shift(centre, -1, 1),
        shift(centre, 0, -1),
        centre,
        shift(centre, 0, 1),
        shift(centre, 1, -1),
        shift(centre, 1, 0),
        shift(centre, 1, 1),
    ]
}

/// `cell` lies within one step of a live cell, or is one. Only such a cell
/// is looked at when a generation is computed.
pub open spec fn is_candidate(cell: Cell, live: Set<Cell>) -> bool {
    exists|centre: Cell| live.contains(centre) && #[trigger] block(centre).contains(cell)
}

/// The cells that a generation looks at.
pub open spec fn candidates(live: Set<Cell>) -> Set<Cell> {
    Set::new(|cell: Cell| is_candidate(cell, live))
}

/// Whether `cell` is alive after a generation that starts from `live`.
pub open spec fn fate(cell: Cell, live: Set<Cell>, cond: Conditions) -> bool {
    cond.next_state(live_neighbours(cell, live) as int, live.contains(cell))
}

/// The generation after `live`: the candidates that the conditions make
/// alive.
pub open spec fn next_generation(live: Set<Cell>, cond: Conditions) -> Set<Cell> {
    Set::new(|cell: Cell| is_candidate(cell, live) && fate(cell, live, cond))
}

/// `cell` lies in the square around one of the first `n` cells of `live`.
spec fn covered(live: Seq<Cell>, n: int, cell: Cell) -> bool {
    exists|j: int| 0 <= j < n && #[trigger] block(live[j]).contains(cell)
}

/// Decides a candidate that this generation has not looked at before, and
/// marks it as looked at. `counted` grows by the cell whose neighbours were
/// counted.
fn decide(
    cell: Cell,
    alive_cells: &CellSet,
    cond: &Conditions,
    checked: &mut CellSet,
    next_state: &mut CellSet,
    Ghost(counted): Ghost<Seq<Cell>>,
) -> (after: Ghost<Seq<Cell>>)
    requires
        !old(checked)@.contains(cell),
    ensures
        final(checked)@ == old(checked)@.insert(cell),
        final(next_state)@ == if fate(cell, alive_cells@, *cond) {
            old(next_state)@.insert(cell)
        } else {
            old(next_state)@
        },
        after@ == counted.push(cell),
{
    let nb = get_nbghr_nb(cell, alive_cells);
    checked.insert(cell);
    if cond.cell_next_state(nb, alive_cells.contains(cell)) {
        next_state.insert(cell);
    }
    Ghost(counted.push(cell))
}

/// Computes the next generation and reports how it was computed: the set of
/// live cells after one step, the number of neighbour counts that were made,
/// and the cells they were made for, in the order of counting. No cell is
/// counted for twice, however many live cells it lies next to, and the cells
/// counted for are exactly the candidates. The conditions have been found
/// valid before.
pub fn next_grid_state_traced(alive_cells: &CellSet, cond: &Conditions) -> (out: (
    CellSet,
    usize,
    Ghost<Seq<Cell>>,
))
    requires
        cond.is_valid(),
    ensures
        out.0@ == next_generation(alive_cells@, *cond),
        out.1 == out.2@.len(),
        out.2@.no_duplicates(),
        out.2@.to_set() == candidates(alive_cells@),
{
    let mut next_state = CellSet::new();
    let mut checked = CellSet::new();
    let mut counted: Ghost<Seq<Cell>> = Ghost(Seq::empty());
    let live = alive_cells.cells();
    for i in 0..live.len()
        invariant
            live@.to_set() == alive_cells@,
            forall|c: Cell| checked@.contains(c) <==> covered(live@, i as int, c),
            forall|c: Cell|
                next_state@.contains(c) <==> checked@.contains(c) && fate(c, alive_cells@, *cond),
            counted@.no_duplicates(),
            counted@.to_set() == checked@,
    {
        let (x, y) = live[i];
        let nghbrs: [Cell; 9] = [
            (x.wrapping_add(-1), y.wrapping_add(-1)),
            (x.wrapping_add(-1), y),
            (x.wrapping_add(-1), y.wrapping_add(1)),
            (x, y.wrapping_add(-1)),
            (x, y),
            (x, y.wrapping_add(1)),
            (x.wrapping_add(1), y.wrapping_add(-1)),
            (x.wrapping_add(1), y),
            (x.wrapping_add(1), y.wrapping_add(1)),
        ];
        assert(nghbrs@ =~= block(live@[i as int]));
        for k in 0..9usize
            invariant
                0 <= i < live@.len(),
                nghbrs@ == block(live@[i as int]),
                forall|c: Cell|
                    checked@.contains(c) <==> covered(live@, i as int, c) || exists|m: int|
                        0 <= m < k && #[trigger] nghbrs@[m] == c,
                forall|c: Cell|
                    next_state@.contains(c) <==> checked@.contains(c) && fate(
                        c,
                        alive_cells@,
                        *cond,
                    ),
                counted@.no_duplicates(),
                counted@.to_set() == checked@,
        {
            let cell = nghbrs[k];
            if !checked.contains(cell) {
                proof {
                    counted@.lemma_push_to_set_commute(cell);
                }
                counted = decide(cell, alive_cells, cond, &mut checked, &mut next_state, counted);
            }
        }
        assert forall|c: Cell| checked@.contains(c) <==> covered(live@, i + 1, c) by {
            if covered(live@, i + 1, c) {
                let j = choose|j: int| 0 <= j < i + 1 && #[trigger] block(live@[j]).contains(c);
                if j < i {
                    assert(covered(live@, i as int, c));
                } else {
                    let m = choose|m: int| 0 <= m < 9 && nghbrs@[m] == c;
                    assert(nghbrs@[m] == c);
                }
            }
            if checked@.contains(c) {
                if covered(live@, i as int, c) {
                    let j = choose|j: int| 0 <= j < i && #[trigger] block(live@[j]).contains(c);
                    assert(block(live@[j]).contains(c));
                } else {
                    assert(block(live@[i as int]).contains(c));
                }
            }
        }
    }
    proof {
        assert forall|c: Cell| checked@.contains(c) <==> is_candidate(c, alive_cells@) by {
            if checked@.contains(c) {
                let j = choose|j: int| 0 <= j < live@.len() && #[trigger] block(live@[j]).contains(c);
                assert(live@.to_set().contains(live@[j]));
            }
            if is_candidate(c, alive_cells@) {
                let centre = choose|centre: Cell|
                    alive_cells@.contains(centre) && #[trigger] block(centre).contains(c);
                assert(live@.to_set().contains(centre));
                let j = choose|j: int| 0 <= j < live@.len() && live@[j] == centre;
                assert(block(live@[j]).contains(c));
            }
        }
        assert(checked@ =~= candidates(alive_cells@));
        assert(next_state@ =~= next_generation(alive_cells@, *cond));
        counted@.unique_seq_to_set();
    }
    let evaluated = checked.len();
    (next_state, evaluated, counted)
}

/// Computes the next generation: a new set, holding every cell within one
/// step of a live cell that the conditions make alive. The conditions have
/// been found valid before.
pub fn next_grid_state(alive_cells: &CellSet, cond: &Conditions) -> (next: CellSet)
    requires
        cond.is_valid(),
    ensures
        next@ == next_generation(alive_cells@, *cond),
{
    next_grid_state_traced(alive_cells, cond).0
}

/// Going one step and then the same step back ends on the cell where it
/// began, also across the edge of what an `i32` holds.
pub proof fn lemma_shift_back(cell: Cell, dx: int, dy: int)
    requires
        -1 <= dx <= 1,
        -1 <= dy <= 1,
    ensures
        shift(shift(cell, dx, dy), -dx, -dy) == cell,
{
}

/// The candidates are the live cells and the cells with a live neighbour:
/// a cell lies in the square around a live cell exactly if it is alive or
/// one of the eight cells around it is.
pub proof fn lemma_candidate_is_near_life(cell: Cell, live: Set<Cell>)
    ensures
        is_candidate(cell, live) <==> live.contains(cell) || live_neighbours(cell, live) > 0,
{
    if is_candidate(cell, live) {
        let centre = choose|centre: Cell|
            live.contains(centre) && #[trigger] block(centre).contains(cell);
        let m = choose|m: int| 0 <= m < 9 && block(centre)[m] == cell;
        let dx = m / 3 - 1;
        let dy = m % 3 - 1;
        assert(cell == shift(centre, dx, dy));
        lemma_shift_back(centre, dx, dy);
    }
    if live.contains(cell) {
        assert(block(cell)[4] == cell);
        assert(block(cell).contains(cell));
    }
    if live_neighbours(cell, live) > 0 {
        let (dx, dy): (int, int) = if live.contains(shift(cell, -1, -1)) {
            (-1, -1)
        } else if live.contains(shift(cell, -1, 0)) {
            (-1, 0)
        } else if live.contains(shift(cell, -1, 1)) {
            (-1, 1)
        } else if live.contains(shift(cell, 0, -1)) {
            (0, -1)
        } else if live.contains(shift(cell, 0, 1)) {
            (0, 1)
        } else if live.contains(shift(cell, 1, -1)) {
            (1, -1)
        } else if live.contains(shift(cell, 1, 0)) {
            (1, 0)
        } else {
            (1, 1)
        };
        let centre = shift(cell, dx, dy);
        lemma_shift_back(cell, dx, dy);
        assert(block(centre)[(1 - dx) * 3 + (1 - dy)] == cell);
        assert(live.contains(centre) && block(centre).contains(cell));
    }
}

/// Where no cell is alive, none is after a generation, whatever the
/// conditions are.
pub proof fn lemma_empty_stays_empty(cond: Conditions)
    ensures
        next_generation(Set::<Cell>::empty(), cond) == Set::<Cell>::empty(),
{
    assert(next_generation(Set::<Cell>::empty(), cond) =~= Set::<Cell>::empty());
}

/// Under conditions that leave a dead cell without live neighbours dead,
/// the step agrees with the rule applied to every cell of the plane: the
/// cells it does not look at are dead in the next generation as well.
pub proof fn lemma_step_is_rule_everywhere(live: Set<Cell>, cond: Conditions)
    requires
        !cond.next_state(0, false),
    ensures
        next_generation(live, cond) == Set::new(|cell: Cell| fate(cell, live, cond)),
{
    assert forall|cell: Cell| fate(cell, live, cond) implies is_candidate(cell, live) by {
        lemma_candidate_is_near_life(cell, live);
    }
    assert(next_generation(live, cond) =~= Set::new(|cell: Cell| fate(cell, live, cond)));
}

} // verus!
