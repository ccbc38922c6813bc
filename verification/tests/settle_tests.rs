use sandrissi::grid::{Elem, ElemKind, ElemPos, GridCells, SandColor, GRID_HEIGHT, GRID_WIDTH};
use sandrissi::settle::main_interaction_loop;

fn kind_at(grid: &GridCells, x: u32, y: u32) -> ElemKind {
    grid.get_elem_at(ElemPos::new(x, y)).unwrap().kind
}

fn place(grid: &mut GridCells, x: u32, y: u32, kind: ElemKind) {
    grid.set_elem_at(ElemPos::new(x, y), Elem::new(kind, false)).unwrap();
}

fn count_non_empty(grid: &GridCells) -> (usize, usize) {
    let mut sand = 0;
    let mut stone = 0;
    for y in 0..GRID_HEIGHT {
        for x in 0..GRID_WIDTH {
            match kind_at(grid, x, y) {
                ElemKind::Sand(_) => sand += 1,
                ElemKind::Stone => stone += 1,
                ElemKind::Empty => {},
            }
        }
    }
    (sand, stone)
}

fn grids_equal(a: &GridCells, b: &GridCells) -> bool {
    for y in 0..GRID_HEIGHT {
        for x in 0..GRID_WIDTH {
            let pos = ElemPos::new(x, y);
            if a.get_elem_at(pos).unwrap() != b.get_elem_at(pos).unwrap() {
                return false;
            }
        }
    }
    true
}

#[test]
fn sand_falls_one_row_per_tick() {
    let mut grid = GridCells::new_empty();
    place(&mut grid, 10, 0, ElemKind::Sand(SandColor::Yellow));
    let mut dir = true;
    main_interaction_loop(&mut grid, &mut dir);
    assert_eq!(kind_at(&grid, 10, 0), ElemKind::Empty);
    assert_eq!(kind_at(&grid, 10, 1), ElemKind::Sand(SandColor::Yellow));
    assert!(!dir, "the bias toggles every tick");
    main_interaction_loop(&mut grid, &mut dir);
    assert_eq!(kind_at(&grid, 10, 1), ElemKind::Empty);
    assert_eq!(kind_at(&grid, 10, 2), ElemKind::Sand(SandColor::Yellow));
    assert!(dir);
}

#[test]
fn sand_rests_on_stone_between_stones() {
    // stone directly below and on both diagonals: the grain cannot move
    let mut grid = GridCells::new_empty();
    place(&mut grid, 9, 7, ElemKind::Stone);
    place(&mut grid, 10, 7, ElemKind::Stone);
    place(&mut grid, 11, 7, ElemKind::Stone);
    place(&mut grid, 10, 6, ElemKind::Sand(SandColor::Red));
    let before = grid.clone();
    let mut dir = true;
    main_interaction_loop(&mut grid, &mut dir);
    assert!(grids_equal(&before, &grid));
}

#[test]
fn stone_and_empty_grid_is_fixed_point() {
    let mut grid = GridCells::new_empty();
    for x in 0..GRID_WIDTH {
        place(&mut grid, x, GRID_HEIGHT - 1, ElemKind::Stone);
    }
    place(&mut grid, 30, 40, ElemKind::Stone);
    place(&mut grid, 31, 40, ElemKind::Stone);
    place(&mut grid, 100, 7, ElemKind::Stone);
    let before = grid.clone();
    let mut dir = true;
    for _ in 0..5 {
        main_interaction_loop(&mut grid, &mut dir);
        assert!(grids_equal(&before, &grid));
    }
}

#[test]
fn ticks_conserve_material() {
    let mut grid = GridCells::new_empty();
    for x in 0..GRID_WIDTH {
        place(&mut grid, x, GRID_HEIGHT - 1, ElemKind::Stone);
    }
    for i in 0..40u32 {
        place(&mut grid, 60 + (i % 8), 10 + i / 8, ElemKind::Sand(SandColor::Blue));
    }
    place(&mut grid, 62, 30, ElemKind::Stone);
    place(&mut grid, 63, 30, ElemKind::Stone);
    let before_counts = count_non_empty(&grid);
    let mut dir = true;
    for _ in 0..50 {
        main_interaction_loop(&mut grid, &mut dir);
        assert_eq!(count_non_empty(&grid), before_counts);
    }
}

#[test]
fn no_sand_moves_upward_in_a_tick() {
    let mut grid = GridCells::new_empty();
    for x in 0..GRID_WIDTH {
        place(&mut grid, x, GRID_HEIGHT - 1, ElemKind::Stone);
    }
    for i in 0..30u32 {
        place(&mut grid, 80 + (i % 5), 50 + i / 5, ElemKind::Sand(SandColor::Green));
    }
    // sand cells in rows >= r, for every threshold r, may only grow
    let deep_counts = |grid: &GridCells| -> Vec<usize> {
        let mut per_row = vec![0usize; GRID_HEIGHT as usize];
        for y in 0..GRID_HEIGHT {
            for x in 0..GRID_WIDTH {
                if matches!(kind_at(grid, x, y), ElemKind::Sand(_)) {
                    per_row[y as usize] += 1;
                }
            }
        }
        let mut from_row = vec![0usize; GRID_HEIGHT as usize + 1];
        for r in (0..GRID_HEIGHT as usize).rev() {
            from_row[r] = from_row[r + 1] + per_row[r];
        }
        from_row
    };
    let mut dir = true;
    for _ in 0..20 {
        let before = deep_counts(&grid);
        main_interaction_loop(&mut grid, &mut dir);
        let after = deep_counts(&grid);
        for r in 0..before.len() {
            assert!(after[r] >= before[r]);
        }
    }
}

#[test]
fn bias_prefers_left_then_right() {
    // a grain blocked straight down by stone, both diagonals free
    let build = || {
        let mut grid = GridCells::new_empty();
        place(&mut grid, 10, 6, ElemKind::Stone);
        place(&mut grid, 10, 5, ElemKind::Sand(SandColor::Yellow));
        grid
    };

    let mut grid = build();
    let mut dir = true;
    main_interaction_loop(&mut grid, &mut dir);
    assert_eq!(kind_at(&grid, 9, 6), ElemKind::Sand(SandColor::Yellow));
    assert_eq!(kind_at(&grid, 10, 5), ElemKind::Empty);
    assert_eq!(kind_at(&grid, 11, 6), ElemKind::Empty);

    // the engine toggled the bias: the same fresh obstruction on the very
    // next tick resolves to the opposite side
    let mut grid2 = build();
    main_interaction_loop(&mut grid2, &mut dir);
    assert_eq!(kind_at(&grid2, 11, 6), ElemKind::Sand(SandColor::Yellow));
    assert_eq!(kind_at(&grid2, 10, 5), ElemKind::Empty);
    assert_eq!(kind_at(&grid2, 9, 6), ElemKind::Empty);
}

#[test]
fn diagonal_move_flags_destination_for_one_tick() {
    let mut grid = GridCells::new_empty();
    place(&mut grid, 10, 6, ElemKind::Stone);
    place(&mut grid, 10, 5, ElemKind::Sand(SandColor::Yellow));
    let mut dir = true;
    main_interaction_loop(&mut grid, &mut dir);
    let landed = grid.get_elem_at(ElemPos::new(9, 6)).unwrap();
    assert_eq!(landed.kind, ElemKind::Sand(SandColor::Yellow));
    assert!(landed.moved, "a diagonal destination is flagged");
    // the next tick only clears the flag: the grain does not move again
    main_interaction_loop(&mut grid, &mut dir);
    let rested = grid.get_elem_at(ElemPos::new(9, 6)).unwrap();
    assert_eq!(rested.kind, ElemKind::Sand(SandColor::Yellow));
    assert!(!rested.moved);
}

#[test]
fn stone_keeps_its_place_while_sand_falls() {
    let mut grid = GridCells::new_empty();
    let stones = [(40u32, 100u32), (41, 100), (42, 100), (40, 150), (44, 150)];
    for &(x, y) in &stones {
        place(&mut grid, x, y, ElemKind::Stone);
    }
    for i in 0..12u32 {
        place(&mut grid, 40 + i % 4, 20 + i / 4, ElemKind::Sand(SandColor::Yellow));
    }
    let mut dir = true;
    for _ in 0..120 {
        main_interaction_loop(&mut grid, &mut dir);
        for y in 0..GRID_HEIGHT {
            for x in 0..GRID_WIDTH {
                let is_stone = kind_at(&grid, x, y) == ElemKind::Stone;
                assert_eq!(is_stone, stones.contains(&(x, y)));
            }
        }
    }
}

#[test]
fn single_grain_settles_within_height_ticks() {
    let mut grid = GridCells::new_empty();
    for x in 0..GRID_WIDTH {
        place(&mut grid, x, GRID_HEIGHT - 1, ElemKind::Stone);
    }
    place(&mut grid, 50, 0, ElemKind::Sand(SandColor::Yellow));
    let mut dir = true;
    for _ in 0..GRID_HEIGHT {
        main_interaction_loop(&mut grid, &mut dir);
    }
    assert_eq!(kind_at(&grid, 50, GRID_HEIGHT - 2), ElemKind::Sand(SandColor::Yellow));
    // the settled grid is a fixed point
    let settled = grid.clone();
    main_interaction_loop(&mut grid, &mut dir);
    assert!(grids_equal(&settled, &grid));
}
