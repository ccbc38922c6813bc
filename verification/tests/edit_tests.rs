use sandrissi::edit::{bresenham_line, user_adds_element, user_selects_element, PrevMousePos,
    UserSelectedElements};
use sandrissi::grid::{Elem, ElemKind, ElemPos, GridCells, SandColor};

fn kind_at(grid: &GridCells, x: u32, y: u32) -> ElemKind {
    grid.get_elem_at(ElemPos::new(x, y)).unwrap().kind
}

fn place(grid: &mut GridCells, x: u32, y: u32, kind: ElemKind) {
    grid.set_elem_at(ElemPos::new(x, y), Elem::new(kind, false)).unwrap();
}

#[test]
fn painting_sand_on_stone_leaves_stone() {
    let mut grid = GridCells::new_empty();
    place(&mut grid, 5, 5, ElemKind::Stone);
    let selected = UserSelectedElements::single(ElemKind::Sand(SandColor::Yellow));
    let mut prev = PrevMousePos::default();
    user_adds_element(&mut grid, &selected, &mut prev, Some(ElemPos::new(5, 5)));
    assert_eq!(kind_at(&grid, 5, 5), ElemKind::Stone);
    assert_eq!(prev.0, Some(ElemPos::new(5, 5)));
}

#[test]
fn painting_empty_erases_any_cell() {
    let mut grid = GridCells::new_empty();
    place(&mut grid, 5, 5, ElemKind::Stone);
    place(&mut grid, 6, 5, ElemKind::Sand(SandColor::Red));
    let eraser = UserSelectedElements::single(ElemKind::Empty);
    let mut prev = PrevMousePos::default();
    user_adds_element(&mut grid, &eraser, &mut prev, Some(ElemPos::new(5, 5)));
    let mut prev2 = PrevMousePos::default();
    user_adds_element(&mut grid, &eraser, &mut prev2, Some(ElemPos::new(6, 5)));
    assert_eq!(kind_at(&grid, 5, 5), ElemKind::Empty);
    assert_eq!(kind_at(&grid, 6, 5), ElemKind::Empty);
}

#[test]
fn painting_sand_on_empty_sets_sand() {
    let mut grid = GridCells::new_empty();
    let selected = UserSelectedElements::single(ElemKind::Sand(SandColor::Blue));
    let mut prev = PrevMousePos::default();
    user_adds_element(&mut grid, &selected, &mut prev, Some(ElemPos::new(12, 34)));
    assert_eq!(kind_at(&grid, 12, 34), ElemKind::Sand(SandColor::Blue));
    let painted = grid.get_elem_at(ElemPos::new(12, 34)).unwrap();
    assert!(!painted.moved, "a painted cell starts unflagged");
}

#[test]
fn diagonal_drag_paints_every_cell() {
    let mut grid = GridCells::new_empty();
    let selected = UserSelectedElements::single(ElemKind::Sand(SandColor::Yellow));
    let mut prev = PrevMousePos::default();
    // first sample paints the starting cell and remembers it
    user_adds_element(&mut grid, &selected, &mut prev, Some(ElemPos::new(0, 0)));
    // a fast drag to (3, 3) fills the line without gaps
    user_adds_element(&mut grid, &selected, &mut prev, Some(ElemPos::new(3, 3)));
    for i in 0..4 {
        assert_eq!(kind_at(&grid, i, i), ElemKind::Sand(SandColor::Yellow));
    }
    assert_eq!(prev.0, Some(ElemPos::new(3, 3)));
}

#[test]
fn bresenham_diagonal_path() {
    let points = bresenham_line(0, 0, 3, 3);
    let coords: Vec<(u32, u32)> = points.iter().map(|p| (p.x, p.y)).collect();
    assert_eq!(coords, vec![(1, 1), (2, 2), (3, 3)]);
}

#[test]
fn bresenham_degenerate_is_single_point() {
    let points = bresenham_line(7, 9, 7, 9);
    let coords: Vec<(u32, u32)> = points.iter().map(|p| (p.x, p.y)).collect();
    assert_eq!(coords, vec![(7, 9)]);
}

#[test]
fn bresenham_shallow_line() {
    let points = bresenham_line(0, 0, 5, 2);
    let coords: Vec<(u32, u32)> = points.iter().map(|p| (p.x, p.y)).collect();
    assert_eq!(coords, vec![(1, 0), (2, 1), (3, 1), (4, 2), (5, 2)]);
}

#[test]
fn bresenham_excludes_start_includes_end() {
    let points = bresenham_line(10, 10, 4, 12);
    let coords: Vec<(u32, u32)> = points.iter().map(|p| (p.x, p.y)).collect();
    assert!(!coords.contains(&(10, 10)));
    assert_eq!(*coords.last().unwrap(), (4, 12));
    // consecutive points are always diagonal or axis neighbors
    let mut prev = (10u32, 10u32);
    for &(x, y) in &coords {
        let dx = (x as i64 - prev.0 as i64).abs();
        let dy = (y as i64 - prev.1 as i64).abs();
        assert!(dx <= 1 && dy <= 1 && dx + dy >= 1);
        prev = (x, y);
    }
}

#[test]
fn released_pointer_clears_drag_state() {
    let mut grid = GridCells::new_empty();
    let selected = UserSelectedElements::single(ElemKind::Sand(SandColor::Yellow));
    let mut prev = PrevMousePos::default();
    user_adds_element(&mut grid, &selected, &mut prev, Some(ElemPos::new(8, 8)));
    assert_eq!(prev.0, Some(ElemPos::new(8, 8)));
    // button up or cursor unresolvable: no edit, continuity cleared
    user_adds_element(&mut grid, &selected, &mut prev, None);
    assert_eq!(prev.0, None);
    assert_eq!(kind_at(&grid, 8, 8), ElemKind::Sand(SandColor::Yellow));
    // the next press starts a fresh singleton edit, not a line
    user_adds_element(&mut grid, &selected, &mut prev, Some(ElemPos::new(12, 8)));
    assert_eq!(kind_at(&grid, 10, 8), ElemKind::Empty);
    assert_eq!(kind_at(&grid, 12, 8), ElemKind::Sand(SandColor::Yellow));
}

#[test]
fn selection_cycles_empty_sand_stone() {
    let mut selection = UserSelectedElements::single(ElemKind::Empty);
    user_selects_element(&mut selection, true, false);
    assert_eq!(selection.kind, ElemKind::Sand(SandColor::Yellow));
    user_selects_element(&mut selection, true, false);
    assert_eq!(selection.kind, ElemKind::Stone);
    user_selects_element(&mut selection, true, false);
    assert_eq!(selection.kind, ElemKind::Empty);
    // without the trigger nothing changes
    user_selects_element(&mut selection, false, false);
    assert_eq!(selection.kind, ElemKind::Empty);
}

#[test]
fn radius_is_forced_to_one() {
    let mut selection = UserSelectedElements::single(ElemKind::Stone);
    selection.radius = 9;
    user_selects_element(&mut selection, false, true);
    assert_eq!(selection.radius, 1);
}
