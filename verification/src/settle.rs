//! The settling engine: the per-tick update that moves sand cells downward
//! or diagonally with an alternating left/right bias.
//!
//! The sweep is the serpentine variant with a moved-flag: rows are processed
//! from the bottom row (`GRID_HEIGHT - 1`) up to row `0`, within each row the
//! horizontal direction alternates with the row parity and the tick bias, and
//! the destination cell of a diagonal move is flagged so it is not processed
//! again before the flag is cleared.
//!
//! The whole tick is specified functionally: [`spec_tick`] folds [`step_cell`]
//! over every position in sweep order, and [`main_interaction_loop`] ensures
//! that the grid after a tick is exactly `spec_tick` of the grid before it.

use vstd::prelude::*;

use crate::grid::{Elem, ElemKind, ElemPos, GridCells, GRID_HEIGHT, GRID_WIDTH};

verus! {

/// Index of column `x`, row `y` in the row-major cell array.
pub open spec fn spec_idx(x: int, y: int) -> int {
    y * GRID_WIDTH as int + x
}

/// The grid after sand at `(x, y)` fell straight down: the cell below
/// backfills with empty, and the destination is not flagged, since the row
/// below has already been processed this tick.
pub open spec fn move_down(s: Seq<Elem>, x: int, y: int) -> Seq<Elem> {
    s.update(spec_idx(x, y), Elem { kind: ElemKind::Empty, moved: false }).update(
        spec_idx(x, y + 1),
        Elem { kind: s[spec_idx(x, y)].kind, moved: false },
    )
}

/// The grid after sand at `(x, y)` moved diagonally down into column `x2`:
/// the vacated cell backfills with empty, and the destination is flagged as
/// moved this tick.
pub open spec fn move_diag(s: Seq<Elem>, x: int, y: int, x2: int) -> Seq<Elem> {
    s.update(spec_idx(x, y), Elem { kind: ElemKind::Empty, moved: false }).update(
        spec_idx(x2, y + 1),
        Elem { kind: s[spec_idx(x, y)].kind, moved: true },
    )
}

/// Whether the cell at `(x, y)` may receive falling sand.
pub open spec fn open_below(s: Seq<Elem>, x: int, y: int) -> bool {
    s[spec_idx(x, y)].kind is Empty
}

/// One sand cell's move attempt, in strict priority order: straight down
/// regardless of bias, then the bias-preferred diagonal, then the other
/// diagonal; the cell stays put when all three are blocked or it sits on the
/// bottom border.
pub open spec fn sand_step(s: Seq<Elem>, x: int, y: int, dir: bool) -> Seq<Elem> {
    if y + 1 < GRID_HEIGHT as int {
        if open_below(s, x, y + 1) {
            move_down(s, x, y)
        } else if dir {
            if x > 0 && open_below(s, x - 1, y + 1) {
                move_diag(s, x, y, x - 1)
            } else if x + 1 < GRID_WIDTH as int && open_below(s, x + 1, y + 1) {
                move_diag(s, x, y, x + 1)
            } else {
                s
            }
        } else {
            if x + 1 < GRID_WIDTH as int && open_below(s, x + 1, y + 1) {
                move_diag(s, x, y, x + 1)
            } else if x > 0 && open_below(s, x - 1, y + 1) {
                move_diag(s, x, y, x - 1)
            } else {
                s
            }
        }
    } else {
        s
    }
}

/// Processing of the single cell at `(x, y)`: a cell flagged as moved this
/// tick only has its flag cleared; an unflagged sand cell attempts its move;
/// empty and stone cells are left untouched.
pub open spec fn step_cell(s: Seq<Elem>, x: int, y: int, dir: bool) -> Seq<Elem> {
    let e = s[spec_idx(x, y)];
    if e.moved {
        s.update(spec_idx(x, y), Elem { kind: e.kind, moved: false })
    } else if e.kind is Sand {
        sand_step(s, x, y, dir)
    } else {
        s
    }
}

/// Whether row `y` is swept left-to-right under bias `dir`.
pub open spec fn row_left_to_right(y: int, dir: bool) -> bool {
    (y % 2 == 0) == dir
}

/// The column processed `i`-th within row `y` under bias `dir`.
pub open spec fn row_col(y: int, dir: bool, i: int) -> int {
    if row_left_to_right(y, dir) {
        i
    } else {
        GRID_WIDTH as int - 1 - i
    }
}

/// The grid after processing the cells of row `y` from sweep position `i`
/// to the end of the row.
pub open spec fn sweep_row_from(s: Seq<Elem>, y: int, dir: bool, i: int) -> Seq<Elem>
    decreases GRID_WIDTH as int - i,
{
    if 0 <= i < GRID_WIDTH as int {
        sweep_row_from(step_cell(s, row_col(y, dir, i), y, dir), y, dir, i + 1)
    } else {
        s
    }
}

/// The grid after processing rows `y`, `y - 1`, ..., `0`, each as a full
/// serpentine row sweep.
pub open spec fn sweep_rows_from(s: Seq<Elem>, dir: bool, y: int) -> Seq<Elem>
    decreases y + 1,
{
    if y < 0 {
        s
    } else {
        sweep_rows_from(sweep_row_from(s, y, dir, 0), dir, y - 1)
    }
}

/// The whole tick: all rows processed from the bottom row upward under bias
/// `dir`.
pub open spec fn spec_tick(s: Seq<Elem>, dir: bool) -> Seq<Elem> {
    sweep_rows_from(s, dir, GRID_HEIGHT as int - 1)
}

/// The grid after `n` ticks starting from bias `dir`, the bias toggling
/// between ticks.
pub open spec fn spec_ticks(s: Seq<Elem>, dir: bool, n: nat) -> Seq<Elem>
    decreases n,
{
    if n == 0 {
        s
    } else {
        spec_ticks(spec_tick(s, dir), !dir, (n - 1) as nat)
    }
}

/// Straight-down move attempt: succeeds exactly when the cell below `pos` is
/// empty, swapping the two cells. The caller guarantees a row below exists.
fn unchecked_set_color_down(grid_cells: &mut GridCells, pos: ElemPos, kind: ElemKind) -> (r:
    bool)
    requires
        old(grid_cells).wf(),
        pos.spec_in_bounds(),
        pos.spec_in_border_bottom(),
        old(grid_cells)@[pos.spec_idx()].kind == kind,
    ensures
        final(grid_cells).wf(),
        r == open_below(old(grid_cells)@, pos.x as int, pos.y as int + 1),
        final(grid_cells)@ == (if r {
            move_down(old(grid_cells)@, pos.x as int, pos.y as int)
        } else {
            old(grid_cells)@
        }),
{
    let down_pos = ElemPos::new(pos.x, pos.y + 1);
    let check = grid_cells.get_elem_at(down_pos).unwrap();
    if let ElemKind::Empty = check.kind {
        let _ = grid_cells.set_elem_at(pos, Elem::new(ElemKind::Empty, false));
        let _ = grid_cells.set_elem_at(down_pos, Elem::new(kind, false));
        true
    } else {
        false
    }
}

/// Down-left move attempt: succeeds exactly when a column exists to the left
/// and the down-left cell is empty; the destination is flagged as moved.
fn set_color_leftdown(grid_cells: &mut GridCells, pos: ElemPos, kind: ElemKind) -> (r: bool)
    requires
        old(grid_cells).wf(),
        pos.spec_in_bounds(),
        pos.spec_in_border_bottom(),
        old(grid_cells)@[pos.spec_idx()].kind == kind,
    ensures
        final(grid_cells).wf(),
        r == (pos.x > 0 && open_below(old(grid_cells)@, pos.x as int - 1, pos.y as int + 1)),
        final(grid_cells)@ == (if r {
            move_diag(old(grid_cells)@, pos.x as int, pos.y as int, pos.x as int - 1)
        } else {
            old(grid_cells)@
        }),
{
    if pos.in_border_left() {
        let leftdown_pos = ElemPos::new(pos.x - 1, pos.y + 1);
        let check = grid_cells.get_elem_at(leftdown_pos).unwrap();
        if let ElemKind::Empty = check.kind {
            let _ = grid_cells.set_elem_at(pos, Elem::new(ElemKind::Empty, false));
            let _ = grid_cells.set_elem_at(leftdown_pos, Elem::new(kind, true));
            return true;
        }
    }
    false
}

/// Down-right move attempt: succeeds exactly when a column exists to the
/// right and the down-right cell is empty; the destination is flagged as
/// moved.
fn set_color_rightdown(grid_cells: &mut GridCells, pos: ElemPos, kind: ElemKind) -> (r: bool)
    requires
        old(grid_cells).wf(),
        pos.spec_in_bounds(),
        pos.spec_in_border_bottom(),
        old(grid_cells)@[pos.spec_idx()].kind == kind,
    ensures
        final(grid_cells).wf(),
        r == (pos.x + 1 < GRID_WIDTH && open_below(
            old(grid_cells)@,
            pos.x as int + 1,
            pos.y as int + 1,
        )),
        final(grid_cells)@ == (if r {
            move_diag(old(grid_cells)@, pos.x as int, pos.y as int, pos.x as int + 1)
        } else {
            old(grid_cells)@
        }),
{
    if pos.in_border_right() {
        let rightdown_pos = ElemPos::new(pos.x + 1, pos.y + 1);
        let check = grid_cells.get_elem_at(rightdown_pos).unwrap();
        if let ElemKind::Empty = check.kind {
            let _ = grid_cells.set_elem_at(pos, Elem::new(ElemKind::Empty, false));
            let _ = grid_cells.set_elem_at(rightdown_pos, Elem::new(kind, true));
            return true;
        }
    }
    false
}

/// One sand cell's full move attempt, in the priority order of
/// [`sand_step`]: straight down first, then the diagonals in the order the
/// bias prefers.
pub fn sand_algorithm(grid_cells: &mut GridCells, pos: ElemPos, dir: bool, sand: ElemKind)
    requires
        old(grid_cells).wf(),
        pos.spec_in_bounds(),
        old(grid_cells)@[pos.spec_idx()].kind == sand,
    ensures
        final(grid_cells).wf(),
        final(grid_cells)@ == sand_step(old(grid_cells)@, pos.x as int, pos.y as int, dir),
{
    if pos.in_border_bottom() {
        if unchecked_set_color_down(grid_cells, pos, sand) {
        } else if dir {
            if set_color_leftdown(grid_cells, pos, sand) {
            } else if set_color_rightdown(grid_cells, pos, sand) {
            }
        } else {
            if set_color_rightdown(grid_cells, pos, sand) {
            } else if set_color_leftdown(grid_cells, pos, sand) {
            }
        }
    }
}

/// One tick of the settling engine: every cell is visited once in serpentine
/// sweep order, sand settles by at most one row, and the bias is toggled for
/// the next tick. The resulting grid is exactly [`spec_tick`] of the old one.
#[verifier::loop_isolation(false)]
pub fn main_interaction_loop(grid_cells: &mut GridCells, dir: &mut bool)
    requires
        old(grid_cells).wf(),
    ensures
        final(grid_cells).wf(),
        final(grid_cells)@ == spec_tick(old(grid_cells)@, *old(dir)),
        *final(dir) == !*old(dir),
{
    let d: bool = *dir;
    let mut y: u32 = GRID_HEIGHT;
    while y > 0
        invariant
            y <= GRID_HEIGHT,
            grid_cells.wf(),
            sweep_rows_from(grid_cells@, d, y as int - 1) == spec_tick(old(grid_cells)@, d),
        decreases y,
    {
        y = y - 1;
        let ltr: bool = (y % 2 == 0) == d;
        let mut i: u32 = 0;
        while i < GRID_WIDTH
            invariant
                i <= GRID_WIDTH,
                grid_cells.wf(),
                sweep_rows_from(sweep_row_from(grid_cells@, y as int, d, i as int), d, y as int - 1)
                    == spec_tick(old(grid_cells)@, d),
            decreases GRID_WIDTH - i,
        {
            let x: u32 = if ltr {
                i
            } else {
                GRID_WIDTH - 1 - i
            };
            proof {
                assert(x as int == row_col(y as int, d, i as int));
            }
            let pos = ElemPos::new(x, y);
            let ghost before = grid_cells@;
            let elem = grid_cells.get_elem_at(pos).unwrap();
            if !elem.moved {
                match elem.kind {
                    ElemKind::Empty | ElemKind::Stone => {},
                    ElemKind::Sand(_) => {
                        sand_algorithm(grid_cells, pos, d, elem.kind);
                    },
                }
            } else {
                let _ = grid_cells.set_elem_at(pos, Elem::new(elem.kind, false));
            }
            proof {
                assert(grid_cells@ == step_cell(before, x as int, y as int, d));
            }
            i = i + 1;
        }
        proof {
            assert(sweep_row_from(grid_cells@, y as int, d, GRID_WIDTH as int) == grid_cells@);
        }
    }
    if *dir {
        *dir = false;
    } else {
        *dir = true;
    }
}

} // verus!
