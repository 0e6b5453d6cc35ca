use automata::control::AutomataControl;
use automata::control::CellSystem;
use automata::control::ControlError;
use automata::control::GridError;
use automata::grid::Size;
use automata::simulation::AutomataGrid;

#[test]
fn default_control_is_stopped_at_25_by_25() {
    let control = AutomataControl::default();
    assert!(!control.running());
    assert_eq!(Size(25, 25), control.size());
}

#[test]
fn control_takes_a_new_size() {
    let mut control = AutomataControl::default();
    assert_eq!(Ok(()), control.set_size(Size(4, 7)));
    assert_eq!(Size(4, 7), control.size());
    assert!(!control.running());
}

#[test]
fn control_turns_down_a_zero_extent() {
    for size in [Size(0, 3), Size(3, 0), Size(0, 0)] {
        let mut control = AutomataControl::default();
        control.set_running(true);
        assert_eq!(Err(ControlError::ZeroExtent), control.set_size(size));
        assert_eq!(Size(25, 25), control.size());
        assert!(control.running());
    }
}

#[test]
fn control_starts_and_stops() {
    let mut control = AutomataControl::default();
    control.set_running(true);
    assert!(control.running());
    assert_eq!(Size(25, 25), control.size());
    control.set_running(false);
    assert!(!control.running());
}

#[test]
fn stopped_simulation_keeps_its_grid() {
    let control = AutomataControl::default();
    let rows = vec![vec![true, true, false], vec![false, false, false], vec![false, false, false]];
    let mut grid = AutomataGrid(rows.clone());
    assert_eq!(Ok(()), CellSystem.run(&control, &mut grid));
    assert_eq!(rows, grid.0);
}

#[test]
fn running_simulation_advances_one_generation() {
    let mut control = AutomataControl::default();
    control.set_running(true);
    let mut grid = AutomataGrid(vec![
        vec![true, true, false],
        vec![false, false, false],
        vec![false, false, false],
    ]);
    assert_eq!(Ok(()), CellSystem.run(&control, &mut grid));
    let expected = vec![
        vec![false, false, false],
        vec![true, true, false],
        vec![false, false, false],
    ];
    assert_eq!(expected, grid.0);
}

#[test]
fn ragged_grid_is_reported_and_kept() {
    let mut control = AutomataControl::default();
    control.set_running(true);
    let rows = vec![vec![true, true], vec![false]];
    let mut grid = AutomataGrid(rows.clone());
    assert_eq!(Err(GridError::Malformed), CellSystem.run(&control, &mut grid));
    assert_eq!(rows, grid.0);
}

#[test]
fn stopped_simulation_does_not_look_at_the_grid() {
    let control = AutomataControl::default();
    let rows = vec![vec![true, true], vec![false]];
    let mut grid = AutomataGrid(rows.clone());
    assert_eq!(Ok(()), CellSystem.run(&control, &mut grid));
    assert_eq!(rows, grid.0);
}
