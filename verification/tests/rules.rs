use game_of_life::rules::Conditions;

fn conditions(limits: [u8; 8]) -> Conditions {
    Conditions {
        underpop: limits[0]..limits[1],
        same: limits[2]..limits[3],
        alive: limits[4]..limits[5],
        overpop: limits[6]..limits[7],
    }
}

#[test]
fn default_conditions_are_the_classical_ones() {
    let cond = Conditions::default();
    assert_eq!(cond.underpop, 0..2);
    assert_eq!(cond.same, 2..3);
    assert_eq!(cond.alive, 3..4);
    assert_eq!(cond.overpop, 4..10);
}

#[test]
fn default_conditions_are_valid() {
    assert!(Conditions::default().check_valid());
}

#[test]
fn underpopulation_must_start_at_zero() {
    assert!(!conditions([1, 2, 2, 3, 3, 4, 4, 10]).check_valid());
}

#[test]
fn a_gap_between_two_ranges_is_invalid() {
    assert!(!conditions([0, 2, 3, 4, 4, 5, 5, 10]).check_valid());
    assert!(!conditions([0, 2, 2, 3, 4, 5, 5, 10]).check_valid());
    assert!(!conditions([0, 2, 2, 3, 3, 4, 5, 10]).check_valid());
}

#[test]
fn overlapping_ranges_are_invalid() {
    assert!(!conditions([0, 3, 2, 3, 3, 4, 4, 10]).check_valid());
    assert!(!conditions([0, 2, 2, 4, 3, 4, 4, 10]).check_valid());
    assert!(!conditions([0, 2, 2, 3, 3, 5, 4, 10]).check_valid());
}

#[test]
fn overpopulation_must_end_at_ten() {
    assert!(!conditions([0, 2, 2, 3, 3, 4, 4, 9]).check_valid());
    assert!(!conditions([0, 2, 2, 3, 3, 4, 4, 11]).check_valid());
}

#[test]
fn other_contiguous_ranges_are_valid() {
    assert!(conditions([0, 1, 1, 4, 4, 6, 6, 10]).check_valid());
    assert!(conditions([0, 0, 0, 0, 0, 10, 10, 10]).check_valid());
}

#[test]
fn three_neighbours_give_birth() {
    assert!(Conditions::default().cell_next_state(3, false));
    assert!(Conditions::default().cell_next_state(3, true));
}

#[test]
fn two_neighbours_keep_the_state() {
    let cond = Conditions::default();
    assert!(cond.cell_next_state(2, true));
    assert!(!cond.cell_next_state(2, false));
}

#[test]
fn too_many_neighbours_kill() {
    let cond = Conditions::default();
    assert!(!cond.cell_next_state(4, true));
    assert!(!cond.cell_next_state(4, false));
    assert!(!cond.cell_next_state(8, true));
}

#[test]
fn too_few_neighbours_kill() {
    let cond = Conditions::default();
    assert!(!cond.cell_next_state(0, true));
    assert!(!cond.cell_next_state(0, false));
    assert!(!cond.cell_next_state(1, true));
    assert!(!cond.cell_next_state(1, false));
}

#[test]
fn the_ends_of_the_ranges_are_excluded() {
    let cond = conditions([0, 1, 1, 4, 4, 6, 6, 10]);
    assert!(!cond.cell_next_state(0, true));
    assert!(cond.cell_next_state(1, true));
    assert!(!cond.cell_next_state(1, false));
    assert!(cond.cell_next_state(3, true));
    assert!(!cond.cell_next_state(3, false));
    assert!(cond.cell_next_state(4, false));
    assert!(cond.cell_next_state(5, false));
    assert!(!cond.cell_next_state(6, true));
}

#[test]
fn only_the_joints_of_the_ranges_are_checked() {
    assert!(conditions([0, 5, 5, 3, 3, 4, 4, 10]).check_valid());
    assert!(conditions([0, 12, 12, 3, 3, 200, 200, 10]).check_valid());
}
