use sandrissi::grid::{Elem, ElemKind, ElemPos, GridCells, GridSize, GRID_COUNT, GRID_HEIGHT,
    GRID_WIDTH};

#[test]
fn new_grid_is_all_empty() {
    let grid = GridCells::new_empty();
    for y in 0..GRID_HEIGHT {
        for x in 0..GRID_WIDTH {
            let elem = grid.get_elem_at(ElemPos::new(x, y)).unwrap();
            assert_eq!(elem.kind, ElemKind::Empty);
            assert!(!elem.moved);
        }
    }
}

#[test]
fn set_then_get_round_trip() {
    let mut grid = GridCells::new_empty();
    let pos = ElemPos::new(17, 42);
    let elem = Elem::new(ElemKind::Stone, false);
    assert_eq!(grid.set_elem_at(pos, elem), Some(()));
    assert_eq!(grid.get_elem_at(pos).unwrap().kind, ElemKind::Stone);
    // neighbors untouched
    assert_eq!(grid.get_elem_at(ElemPos::new(16, 42)).unwrap().kind, ElemKind::Empty);
    assert_eq!(grid.get_elem_at(ElemPos::new(17, 41)).unwrap().kind, ElemKind::Empty);
}

#[test]
fn get_out_of_bounds_is_none() {
    let grid = GridCells::new_empty();
    assert!(grid.get_elem_at(ElemPos::new(GRID_WIDTH, 0)).is_none());
    assert!(grid.get_elem_at(ElemPos::new(0, GRID_HEIGHT)).is_none());
    // the coordinates a negative number would wrap to are far out of range
    assert!(grid.get_elem_at(ElemPos::new(u32::MAX, 0)).is_none());
    assert!(grid.get_elem_at(ElemPos::new(0, u32::MAX)).is_none());
    assert!(grid.get_elem_at(ElemPos::new(u32::MAX, u32::MAX)).is_none());
}

#[test]
fn set_out_of_bounds_is_none_and_changes_nothing() {
    let mut grid = GridCells::new_empty();
    let elem = Elem::new(ElemKind::Stone, false);
    assert!(grid.set_elem_at(ElemPos::new(GRID_WIDTH, 0), elem).is_none());
    assert!(grid.set_elem_at(ElemPos::new(0, GRID_HEIGHT), elem).is_none());
    assert!(grid.set_elem_at(ElemPos::new(u32::MAX, u32::MAX), elem).is_none());
    for y in 0..GRID_HEIGHT {
        for x in 0..GRID_WIDTH {
            assert_eq!(grid.get_elem_at(ElemPos::new(x, y)).unwrap().kind, ElemKind::Empty);
        }
    }
}

#[test]
fn bounds_and_border_predicates() {
    assert!(ElemPos::new(0, 0).in_bounds());
    assert!(ElemPos::new(GRID_WIDTH - 1, GRID_HEIGHT - 1).in_bounds());
    assert!(!ElemPos::new(GRID_WIDTH, 0).in_bounds());
    assert!(!ElemPos::new(0, GRID_HEIGHT).in_bounds());

    // a row below exists everywhere but in the bottom row
    assert!(ElemPos::new(5, 0).in_border_bottom());
    assert!(ElemPos::new(5, GRID_HEIGHT - 2).in_border_bottom());
    assert!(!ElemPos::new(5, GRID_HEIGHT - 1).in_border_bottom());

    assert!(!ElemPos::new(0, 5).in_border_left());
    assert!(ElemPos::new(1, 5).in_border_left());

    assert!(ElemPos::new(GRID_WIDTH - 2, 5).in_border_right());
    assert!(!ElemPos::new(GRID_WIDTH - 1, 5).in_border_right());
}

#[test]
fn grid_size_count() {
    let size = GridSize::new(GRID_WIDTH, GRID_HEIGHT);
    assert_eq!(size.count(), GRID_COUNT);
    assert_eq!(GridSize::new(3, 7).count(), 21);
}
