use sandrissi::geom::local_to_grid;
use sandrissi::grid::{Elem, ElemKind, ElemPos, GridCells, SandColor, GRID_COUNT, GRID_HEIGHT,
    GRID_WIDTH};
use sandrissi::render::{draw_image, Rgba};

#[test]
fn world_to_grid_flips_the_row_axis() {
    // the lowest world-space row of the grid is the highest storage row
    assert_eq!(local_to_grid(0, 0), Some(ElemPos::new(0, GRID_HEIGHT - 1)));
    assert_eq!(local_to_grid(0, (GRID_HEIGHT - 1) as i64), Some(ElemPos::new(0, 0)));
    assert_eq!(local_to_grid(5, 2), Some(ElemPos::new(5, GRID_HEIGHT - 3)));
}

#[test]
fn out_of_range_world_points_resolve_to_none() {
    assert_eq!(local_to_grid(-1, 0), None);
    assert_eq!(local_to_grid(0, -1), None);
    assert_eq!(local_to_grid(GRID_WIDTH as i64, 0), None);
    assert_eq!(local_to_grid(0, GRID_HEIGHT as i64), None);
}

#[test]
fn base_colors_are_fixed() {
    assert_eq!(ElemKind::Empty.get_base_color(), Rgba { r: 0, g: 0, b: 0, a: 0 });
    assert_eq!(ElemKind::Stone.get_base_color(), Rgba { r: 115, g: 115, b: 115, a: 255 });
    assert_eq!(
        ElemKind::Sand(SandColor::Yellow).get_base_color(),
        Rgba { r: 242, g: 209, b: 51, a: 255 }
    );
    assert_eq!(
        ElemKind::Sand(SandColor::Red).get_base_color(),
        Rgba { r: 235, g: 64, b: 64, a: 255 }
    );
    assert_eq!(
        ElemKind::Sand(SandColor::Blue).get_base_color(),
        Rgba { r: 51, g: 115, b: 242, a: 255 }
    );
    assert_eq!(
        ElemKind::Sand(SandColor::Green).get_base_color(),
        Rgba { r: 64, g: 217, b: 64, a: 255 }
    );
}

#[test]
fn stone_and_empty_render_without_jitter() {
    let pos = ElemPos::new(123, 45);
    assert_eq!(ElemKind::Stone.get_varied_color_from_position(pos), ElemKind::Stone
        .get_base_color());
    assert_eq!(ElemKind::Empty.get_varied_color_from_position(pos), ElemKind::Empty
        .get_base_color());
}

#[test]
fn sand_jitter_is_deterministic_per_position() {
    let kind = ElemKind::Sand(SandColor::Yellow);
    let a = kind.get_varied_color_from_position(ElemPos::new(10, 20));
    let b = kind.get_varied_color_from_position(ElemPos::new(10, 20));
    assert_eq!(a, b);
    // the exact mixing of (10, 20) perturbs the yellow base to this color
    assert_eq!(a, Rgba { r: 248, g: 210, b: 57, a: 255 });
}

#[test]
fn sand_jitter_stays_within_channel_bounds() {
    for x in 0..GRID_WIDTH {
        for y in (0..GRID_HEIGHT).step_by(7) {
            let color = ElemKind::Sand(SandColor::Yellow)
                .get_varied_color_from_position(ElemPos::new(x, y));
            assert!(color.r >= 204);
            assert!((178..=242).contains(&color.g));
            assert!((25..=102).contains(&color.b));
            assert_eq!(color.a, 255);
        }
    }
}

#[test]
fn draw_image_projects_every_cell() {
    let mut grid = GridCells::new_empty();
    grid.set_elem_at(ElemPos::new(7, 3), Elem::new(ElemKind::Stone, false)).unwrap();
    grid.set_elem_at(ElemPos::new(8, 3), Elem::new(ElemKind::Sand(SandColor::Green), false))
        .unwrap();
    let buffer = draw_image(&grid);
    assert_eq!(buffer.len(), GRID_COUNT);
    let at = |x: u32, y: u32| buffer[(y * GRID_WIDTH + x) as usize];
    assert_eq!(at(0, 0), Rgba { r: 0, g: 0, b: 0, a: 0 });
    assert_eq!(at(7, 3), Rgba { r: 115, g: 115, b: 115, a: 255 });
    assert_eq!(
        at(8, 3),
        ElemKind::Sand(SandColor::Green).get_varied_color_from_position(ElemPos::new(8, 3))
    );
}
