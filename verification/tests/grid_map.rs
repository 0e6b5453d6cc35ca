use automata::grid::GridID;
use automata::grid_map::GridMap;

#[test]
fn test_grid_map() {
    let map = {
        let mut m = GridMap::new(3, 3);
        m.add(GridID(0, 0), 1);
        m.add(GridID(2, 2), 9);
        m
    };
    assert_eq!(1, *map.get(GridID(0, 0)));
    assert_eq!(9, *map.get(GridID(2, 2)));
}

#[test]
fn new_store_holds_defaults() {
    let numbers: GridMap<i32> = GridMap::new(4, 2);
    let names: GridMap<String> = GridMap::new(4, 2);
    for row in 0..2 {
        for column in 0..4 {
            assert_eq!(0, *numbers.get(GridID(row, column)));
            assert_eq!("", names.get(GridID(row, column)).as_str());
        }
    }
}

#[test]
fn index_is_row_major() {
    let map: GridMap<u8> = GridMap::new(5, 3);
    assert_eq!(0, map.get_index(GridID(0, 0)));
    assert_eq!(4, map.get_index(GridID(0, 4)));
    assert_eq!(5, map.get_index(GridID(1, 0)));
    assert_eq!(13, map.get_index(GridID(2, 3)));
    assert_eq!(14, map.get_index(GridID(2, 4)));
}

#[test]
fn distinct_coordinates_never_share_a_slot() {
    let width = 4;
    let height = 3;
    let map: GridMap<u8> = GridMap::new(width, height);
    let mut seen = vec![false; width * height];
    for row in 0..height {
        for column in 0..width {
            let index = map.get_index(GridID(row, column));
            assert!(index < width * height);
            assert!(!seen[index]);
            seen[index] = true;
        }
    }
    assert!(seen.iter().all(|slot| *slot));
}

#[test]
fn add_changes_one_slot_only() {
    let mut map: GridMap<u32> = GridMap::new(3, 2);
    for row in 0..2 {
        for column in 0..3 {
            map.add(GridID(row, column), (10 * row + column) as u32);
        }
    }
    map.add(GridID(1, 1), 77);
    for row in 0..2 {
        for column in 0..3 {
            let expected = if (row, column) == (1, 1) { 77 } else { (10 * row + column) as u32 };
            assert_eq!(expected, *map.get(GridID(row, column)));
        }
    }
}

#[test]
fn add_replaces_what_was_stored() {
    let mut map: GridMap<i32> = GridMap::new(2, 2);
    map.add(GridID(0, 1), 5);
    map.add(GridID(0, 1), 6);
    assert_eq!(6, *map.get(GridID(0, 1)));
    assert_eq!(0, *map.get(GridID(1, 0)));
}

#[test]
fn coordinates_have_rows_and_columns() {
    let id = GridID(7, 2);
    assert_eq!(7, id.row());
    assert_eq!(2, id.column());
}
