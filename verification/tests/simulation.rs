use automata::grid::GridID;
use automata::simulation::survives;
use automata::simulation::AutomataGrid;
use automata::simulation::Simulation;
use automata::simulation::LOWER_EXCLUSIVE;
use automata::simulation::UPPER_INCLUSIVE;

fn grid_from(rows: &[&str]) -> Simulation {
    let width = rows[0].len() as u32;
    let mut grid = Simulation::new(width, rows.len() as u32);
    for (row, cells) in rows.iter().enumerate() {
        for (column, cell) in cells.chars().enumerate() {
            grid.set(GridID(row, column), cell == '#');
        }
    }
    grid
}

fn rows_of(grid: &Simulation) -> Vec<String> {
    let (width, height) = grid.get_size();
    let mut rows = Vec::new();
    for row in 0..height as usize {
        let mut cells = String::new();
        for column in 0..width as usize {
            cells.push(if grid.get(GridID(row, column)) { '#' } else { '.' });
        }
        rows.push(cells);
    }
    rows
}

#[test]
fn new_grid_has_its_size_and_is_dead() {
    for (width, height) in [(1u32, 1u32), (3, 3), (5, 2), (2, 7), (0, 4)] {
        let grid = Simulation::new(width, height);
        assert_eq!((width, height), grid.get_size());
        for row in 0..height as usize {
            for column in 0..width as usize {
                assert!(!grid.get(GridID(row, column)));
            }
        }
    }
}

#[test]
fn set_changes_one_cell() {
    let mut grid = Simulation::new(3, 2);
    grid.set(GridID(1, 2), true);
    assert_eq!(vec!["...", "..#"], rows_of(&grid));
    grid.set(GridID(1, 2), false);
    assert_eq!(vec!["...", "..."], rows_of(&grid));
}

#[test]
fn rule_is_more_than_one_and_at_most_four() {
    assert_eq!(1, LOWER_EXCLUSIVE);
    assert_eq!(4, UPPER_INCLUSIVE);
    let expected = [false, false, true, true, true, false, false, false, false];
    for count in 0..=8u8 {
        assert_eq!(expected[count as usize], survives(count));
    }
}

#[test]
fn lone_center_cell_leaves_a_dead_grid() {
    let mut grid = grid_from(&["...", ".#.", "..."]);
    for row in 0..3 {
        for column in 0..3 {
            let expected = if (row, column) == (1, 1) { 0 } else { 1 };
            assert_eq!(expected, grid.neighbor_count(GridID(row, column)));
        }
    }
    grid.next();
    assert_eq!(vec!["...", "...", "..."], rows_of(&grid));
}

#[test]
fn single_cell_grid_always_dies() {
    let mut alive = grid_from(&["#"]);
    assert_eq!(0, alive.neighbor_count(GridID(0, 0)));
    alive.next();
    assert_eq!(vec!["."], rows_of(&alive));
    let mut dead = grid_from(&["."]);
    dead.next();
    assert_eq!(vec!["."], rows_of(&dead));
}

#[test]
fn edges_count_only_cells_inside() {
    let grid = grid_from(&["###", "###", "###"]);
    let expected = [[3, 5, 3], [5, 8, 5], [3, 5, 3]];
    for row in 0..3 {
        for column in 0..3 {
            assert_eq!(expected[row][column], grid.neighbor_count(GridID(row, column)));
        }
    }
}

#[test]
fn full_grid_keeps_only_its_corners() {
    let mut grid = grid_from(&["###", "###", "###"]);
    grid.next();
    assert_eq!(vec!["#.#", "...", "#.#"], rows_of(&grid));
}

#[test]
fn rule_ignores_the_cells_own_state() {
    let mut grid = grid_from(&["##.", "...", "..."]);
    grid.next();
    assert_eq!(vec!["...", "##.", "..."], rows_of(&grid));
}

#[test]
fn wide_grid_keeps_its_shape() {
    let mut grid = grid_from(&["#.#.#", ".#.#."]);
    assert_eq!(2, grid.neighbor_count(GridID(0, 2)));
    assert_eq!(2, grid.neighbor_count(GridID(1, 4)));
    grid.next();
    assert_eq!((5, 2), grid.get_size());
    assert_eq!(vec![".###.", "#####"], rows_of(&grid));
}

#[test]
fn tall_grid_keeps_its_shape() {
    let mut grid = grid_from(&["#.", ".#", "#.", ".#", "#."]);
    grid.next();
    assert_eq!((2, 5), grid.get_size());
    assert_eq!(vec![".#", "##", "##", "##", ".#"], rows_of(&grid));
}

#[test]
fn transition_is_deterministic() {
    let start = grid_from(&["#..#", ".##.", "#.#.", "...#"]);
    let mut first = start.clone();
    let mut second = start.clone();
    first.next();
    second.next();
    assert_eq!(first, second);
    assert_eq!(rows_of(&first), rows_of(&second));
    assert_eq!(vec!["#..#", ".##.", "#.#.", "...#"], rows_of(&start));
}

#[test]
fn clone_is_a_separate_grid() {
    let start = grid_from(&["##", "##"]);
    let mut copy = start.clone();
    copy.set(GridID(0, 0), false);
    assert_eq!(vec!["##", "##"], rows_of(&start));
    assert_eq!(vec![".#", "##"], rows_of(&copy));
}

#[test]
fn rows_become_a_grid_and_come_back() {
    let rows = vec![vec![true, false, true], vec![false, true, false]];
    let grid = match Simulation::from_grid(AutomataGrid(rows.clone())) {
        Ok(grid) => grid,
        Err(_) => panic!("a table was turned down"),
    };
    assert_eq!((3, 2), grid.get_size());
    assert_eq!(vec!["#.#", ".#."], rows_of(&grid));
    assert_eq!(rows, grid.into_grid().0);
}

#[test]
fn ragged_rows_are_handed_back() {
    let rows = vec![vec![true, false], vec![false], vec![true, true]];
    match Simulation::from_grid(AutomataGrid(rows.clone())) {
        Ok(_) => panic!("ragged rows were taken"),
        Err(rejected) => assert_eq!(rows, rejected.0),
    }
}

#[test]
fn empty_grid_is_a_table() {
    let empty = AutomataGrid::default();
    assert!(empty.0.is_empty());
    let mut grid = match Simulation::from_grid(empty) {
        Ok(grid) => grid,
        Err(_) => panic!("an empty table was turned down"),
    };
    grid.next();
    assert!(grid.into_grid().0.is_empty());
}
