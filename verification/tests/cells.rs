use game_of_life::cells::{Cell, CellSet};

fn set_of(cells: &[Cell]) -> CellSet {
    let mut set = CellSet::new();
    for cell in cells {
        set.insert(*cell);
    }
    set
}

fn sorted(set: &CellSet) -> Vec<Cell> {
    let mut cells = set.cells();
    cells.sort();
    cells
}

#[test]
fn a_new_set_is_empty() {
    let set = CellSet::new();
    assert!(set.is_empty());
    assert_eq!(set.len(), 0);
    assert!(!set.contains((0, 0)));
    assert_eq!(set.cells(), vec![]);
    assert!(CellSet::default().is_empty());
}

#[test]
fn insert_makes_a_cell_alive_once() {
    let mut set = CellSet::new();
    assert!(set.insert((3, -4)));
    assert!(!set.insert((3, -4)));
    assert!(set.contains((3, -4)));
    assert!(!set.contains((-4, 3)));
    assert_eq!(set.len(), 1);
    assert!(!set.is_empty());
}

#[test]
fn remove_makes_a_cell_dead() {
    let mut set = set_of(&[(1, 1), (2, 2)]);
    assert!(set.remove((1, 1)));
    assert!(!set.remove((1, 1)));
    assert!(!set.contains((1, 1)));
    assert!(set.contains((2, 2)));
    assert_eq!(set.len(), 1);
}

#[test]
fn toggle_switches_a_cell() {
    let mut set = CellSet::new();
    assert!(set.toggle((5, 6)));
    assert!(set.contains((5, 6)));
    assert!(!set.toggle((5, 6)));
    assert!(!set.contains((5, 6)));
    assert!(set.is_empty());
}

#[test]
fn cells_lists_each_cell_once() {
    let set = set_of(&[(2, 0), (0, 0), (1, 0), (0, 0), (i32::MAX, i32::MIN)]);
    assert_eq!(set.len(), 4);
    assert_eq!(sorted(&set), vec![(0, 0), (1, 0), (2, 0), (i32::MAX, i32::MIN)]);
}

#[test]
fn sets_with_the_same_cells_are_equal() {
    let a = set_of(&[(0, 0), (1, 2), (-3, 4)]);
    let b = set_of(&[(-3, 4), (0, 0), (1, 2)]);
    assert!(a.same_cells(&b));
    assert!(a == b);
    assert!(CellSet::new() == CellSet::new());
}

#[test]
fn sets_with_other_cells_differ() {
    let a = set_of(&[(0, 0), (1, 2)]);
    assert!(!a.same_cells(&set_of(&[(0, 0), (2, 1)])));
    assert!(!a.same_cells(&set_of(&[(0, 0)])));
    assert!(!a.same_cells(&set_of(&[(0, 0), (1, 2), (5, 5)])));
    assert!(a != CellSet::new());
}
