use game_of_life::cells::{Cell, CellSet};
use game_of_life::grid::{get_nbghr_nb, next_grid_state, next_grid_state_traced};
use game_of_life::pattern::spawn_glider;
use game_of_life::rules::Conditions;

fn set_of(cells: &[Cell]) -> CellSet {
    let mut set = CellSet::new();
    for cell in cells {
        set.insert(*cell);
    }
    set
}

fn sorted(set: &CellSet) -> Vec<Cell> {
    let mut cells = set.cells();
    cells.sort();
    cells
}

#[test]
fn a_lonely_cell_has_no_neighbours() {
    let set = set_of(&[(0, 0)]);
    assert_eq!(get_nbghr_nb((0, 0), &set), 0);
}

#[test]
fn a_cell_does_not_count_itself() {
    let set = set_of(&[(4, 4), (5, 4)]);
    assert_eq!(get_nbghr_nb((4, 4), &set), 1);
    assert_eq!(get_nbghr_nb((5, 4), &set), 1);
}

#[test]
fn all_eight_neighbours_are_counted() {
    let set = set_of(&[
        (-1, -1),
        (-1, 0),
        (-1, 1),
        (0, -1),
        (0, 0),
        (0, 1),
        (1, -1),
        (1, 0),
        (1, 1),
    ]);
    assert_eq!(get_nbghr_nb((0, 0), &set), 8);
    assert_eq!(get_nbghr_nb((1, 1), &set), 3);
    assert_eq!(get_nbghr_nb((1, 0), &set), 5);
    assert_eq!(get_nbghr_nb((2, 0), &set), 3);
    assert_eq!(get_nbghr_nb((2, 2), &set), 1);
    assert_eq!(get_nbghr_nb((3, 0), &set), 0);
}

#[test]
fn each_neighbour_counts_for_one() {
    let around = [(-1, -1), (-1, 0), (-1, 1), (0, -1), (0, 1), (1, -1), (1, 0), (1, 1)];
    for offset in around {
        let set = set_of(&[(7 + offset.0, -2 + offset.1)]);
        assert_eq!(get_nbghr_nb((7, -2), &set), 1);
    }
    assert_eq!(get_nbghr_nb((7, -2), &set_of(&[(9, -2)])), 0);
    assert_eq!(get_nbghr_nb((7, -2), &set_of(&[(7, 0)])), 0);
}

#[test]
fn neighbours_wrap_round_the_edge() {
    let set = set_of(&[(i32::MIN, 0), (0, i32::MAX)]);
    assert_eq!(get_nbghr_nb((i32::MAX, 0), &set), 1);
    assert_eq!(get_nbghr_nb((0, i32::MIN), &set), 1);
}

#[test]
fn nothing_comes_from_nothing() {
    let next = next_grid_state(&CellSet::new(), &Conditions::default());
    assert!(next.is_empty());
    let eager = Conditions { underpop: 0..0, same: 0..0, alive: 0..10, overpop: 10..10 };
    assert!(eager.check_valid());
    assert!(next_grid_state(&CellSet::new(), &eager).is_empty());
}

#[test]
fn a_lonely_cell_dies() {
    let next = next_grid_state(&set_of(&[(3, 3)]), &Conditions::default());
    assert!(next.is_empty());
}

#[test]
fn a_block_stays_as_it_is() {
    let block = set_of(&[(0, 0), (1, 0), (0, 1), (1, 1)]);
    let next = next_grid_state(&block, &Conditions::default());
    assert_eq!(sorted(&next), vec![(0, 0), (0, 1), (1, 0), (1, 1)]);
    assert!(next == block);
}

#[test]
fn a_blinker_turns_and_turns_back() {
    let cond = Conditions::default();
    let flat = set_of(&[(0, 0), (1, 0), (2, 0)]);
    let upright = next_grid_state(&flat, &cond);
    assert_eq!(sorted(&upright), vec![(1, -1), (1, 0), (1, 1)]);
    let again = next_grid_state(&upright, &cond);
    assert_eq!(sorted(&again), vec![(0, 0), (1, 0), (2, 0)]);
    assert!(again == flat);
}

#[test]
fn a_glider_moves_one_cell_in_four_steps() {
    let cond = Conditions::default();
    let mut cells = CellSet::new();
    spawn_glider((10, 10), &mut cells);
    assert_eq!(sorted(&cells), vec![(10, 10), (11, 11), (11, 12), (12, 10), (12, 11)]);
    for _ in 0..4 {
        cells = next_grid_state(&cells, &cond);
    }
    assert_eq!(sorted(&cells), vec![(11, 11), (12, 12), (12, 13), (13, 11), (13, 12)]);
    let mut moved = CellSet::new();
    spawn_glider((11, 11), &mut moved);
    assert!(cells == moved);
}

#[test]
fn a_glider_after_one_step() {
    let mut cells = CellSet::new();
    spawn_glider((0, 0), &mut cells);
    let next = next_grid_state(&cells, &Conditions::default());
    assert_eq!(sorted(&next), vec![(0, 1), (1, 2), (2, 0), (2, 1), (2, 2)]);
}

#[test]
fn the_step_leaves_its_input_alone() {
    let flat = set_of(&[(0, 0), (1, 0), (2, 0)]);
    let _ = next_grid_state(&flat, &Conditions::default());
    assert_eq!(sorted(&flat), vec![(0, 0), (1, 0), (2, 0)]);
}

#[test]
fn the_step_gives_the_same_set_each_time() {
    let cond = Conditions::default();
    let mut cells = CellSet::new();
    spawn_glider((-3, 8), &mut cells);
    cells.insert((0, 9));
    let first = next_grid_state(&cells, &cond);
    let second = next_grid_state(&cells, &cond);
    assert!(first == second);
}

#[test]
fn only_cells_near_life_are_born() {
    let eager = Conditions { underpop: 0..0, same: 0..0, alive: 0..10, overpop: 10..10 };
    let next = next_grid_state(&set_of(&[(0, 0)]), &eager);
    assert_eq!(
        sorted(&next),
        vec![(-1, -1), (-1, 0), (-1, 1), (0, -1), (0, 0), (0, 1), (1, -1), (1, 0), (1, 1)]
    );
}

#[test]
fn other_conditions_give_other_generations() {
    let cond = Conditions { underpop: 0..1, same: 1..2, alive: 2..3, overpop: 3..10 };
    let next = next_grid_state(&set_of(&[(0, 0), (1, 0)]), &cond);
    assert_eq!(sorted(&next), vec![(0, -1), (0, 0), (0, 1), (1, -1), (1, 0), (1, 1)]);
}

#[test]
fn the_step_wraps_round_the_edge() {
    let cond = Conditions::default();
    let flat = set_of(&[(i32::MAX, 0), (i32::MIN, 0), (i32::MIN + 1, 0)]);
    let upright = next_grid_state(&flat, &cond);
    assert_eq!(sorted(&upright), vec![(i32::MIN, -1), (i32::MIN, 0), (i32::MIN, 1)]);
}

#[test]
fn each_candidate_is_counted_for_once() {
    let cond = Conditions::default();
    let (next, counts, _) = next_grid_state_traced(&set_of(&[(0, 0)]), &cond);
    assert!(next.is_empty());
    assert_eq!(counts, 9);
    let block = set_of(&[(0, 0), (1, 0), (0, 1), (1, 1)]);
    let (next, counts, _) = next_grid_state_traced(&block, &cond);
    assert!(next == block);
    assert_eq!(counts, 16);
    let (_, counts, _) = next_grid_state_traced(&set_of(&[(0, 0), (1, 0), (2, 0)]), &cond);
    assert_eq!(counts, 15);
    let (_, counts, _) = next_grid_state_traced(&set_of(&[(0, 0), (10, 10)]), &cond);
    assert_eq!(counts, 18);
    let (_, counts, _) = next_grid_state_traced(&CellSet::new(), &cond);
    assert_eq!(counts, 0);
}
