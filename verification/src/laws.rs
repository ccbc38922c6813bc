//! Properties of the settling engine, proved against the functional tick
//! specification: settling conserves material, never moves sand upward, and
//! leaves grids without sand untouched.

use vstd::prelude::*;

use crate::grid::{Elem, ElemKind, SandColor, GRID_COUNT, GRID_HEIGHT, GRID_WIDTH};
use crate::settle::{
    move_diag, move_down, open_below, row_col, row_left_to_right, spec_idx, spec_tick,
    spec_ticks, step_cell, sweep_row_from, sweep_rows_from,
};

verus! {

/// How many cells of the grid hold material of kind `k`.
pub open spec fn count_kind(s: Seq<Elem>, k: ElemKind) -> nat
    decreases s.len(),
{
    if s.len() == 0 {
        0
    } else {
        count_kind(s.drop_last(), k) + (if s.last().kind == k {
            1nat
        } else {
            0nat
        })
    }
}

proof fn lemma_count_kind_update(s: Seq<Elem>, i: int, e: Elem, k: ElemKind)
    requires
        0 <= i < s.len(),
    ensures
        count_kind(s.update(i, e), k) + (if s[i].kind == k {
            1nat
        } else {
            0nat
        }) == count_kind(s, k) + (if e.kind == k {
            1nat
        } else {
            0nat
        }),
    decreases s.len(),
{
    let s2 = s.update(i, e);
    if i == s.len() - 1 {
        assert(s2.drop_last() =~= s.drop_last());
    } else {
        assert(s2.drop_last() =~= s.drop_last().update(i, e));
        lemma_count_kind_update(s.drop_last(), i, e, k);
    }
}

proof fn lemma_step_cell_counts(s: Seq<Elem>, x: int, y: int, dir: bool, k: ElemKind)
    requires
        s.len() == GRID_COUNT,
        0 <= x < GRID_WIDTH as int,
        0 <= y < GRID_HEIGHT as int,
    ensures
        step_cell(s, x, y, dir).len() == s.len(),
        count_kind(step_cell(s, x, y, dir), k) == count_kind(s, k),
{
    let i1 = spec_idx(x, y);
    let e = s[i1];
    if e.moved {
        lemma_count_kind_update(s, i1, Elem { kind: e.kind, moved: false }, k);
    } else if e.kind is Sand {
        if y + 1 < GRID_HEIGHT as int {
            if open_below(s, x, y + 1) {
                lemma_swap_counts(s, x, y, x, k);
            } else if dir {
                if x > 0 && open_below(s, x - 1, y + 1) {
                    lemma_swap_counts(s, x, y, x - 1, k);
                } else if x + 1 < GRID_WIDTH as int && open_below(s, x + 1, y + 1) {
                    lemma_swap_counts(s, x, y, x + 1, k);
                }
            } else {
                if x + 1 < GRID_WIDTH as int && open_below(s, x + 1, y + 1) {
                    lemma_swap_counts(s, x, y, x + 1, k);
                } else if x > 0 && open_below(s, x - 1, y + 1) {
                    lemma_swap_counts(s, x, y, x - 1, k);
                }
            }
        }
    }
}

/// Both move forms swap the sand cell at `(x, y)` with the empty cell at
/// `(x2, y + 1)`, so every kind keeps its count.
proof fn lemma_swap_counts(s: Seq<Elem>, x: int, y: int, x2: int, k: ElemKind)
    requires
        s.len() == GRID_COUNT,
        0 <= x < GRID_WIDTH as int,
        0 <= x2 < GRID_WIDTH as int,
        0 <= y,
        y + 1 < GRID_HEIGHT as int,
        s[spec_idx(x2, y + 1)].kind is Empty,
    ensures
        x2 == x ==> count_kind(move_down(s, x, y), k) == count_kind(s, k),
        count_kind(move_diag(s, x, y, x2), k) == count_kind(s, k),
{
    let i1 = spec_idx(x, y);
    let i2 = spec_idx(x2, y + 1);
    assert(i1 != i2);
    assert(0 <= i2 < GRID_COUNT);
    let s1 = s.update(i1, Elem { kind: ElemKind::Empty, moved: false });
    lemma_count_kind_update(s, i1, Elem { kind: ElemKind::Empty, moved: false }, k);
    assert(s1[i2] == s[i2]);
    lemma_count_kind_update(s1, i2, Elem { kind: s[i1].kind, moved: false }, k);
    lemma_count_kind_update(s1, i2, Elem { kind: s[i1].kind, moved: true }, k);
}

proof fn lemma_sweep_row_counts(s: Seq<Elem>, y: int, dir: bool, i: int, k: ElemKind)
    requires
        s.len() == GRID_COUNT,
        0 <= y < GRID_HEIGHT as int,
    ensures
        sweep_row_from(s, y, dir, i).len() == s.len(),
        count_kind(sweep_row_from(s, y, dir, i), k) == count_kind(s, k),
    decreases GRID_WIDTH as int - i,
{
    if 0 <= i < GRID_WIDTH as int {
        let x = row_col(y, dir, i);
        lemma_step_cell_counts(s, x, y, dir, k);
        lemma_sweep_row_counts(step_cell(s, x, y, dir), y, dir, i + 1, k);
    }
}

proof fn lemma_sweep_rows_counts(s: Seq<Elem>, dir: bool, y: int, k: ElemKind)
    requires
        s.len() == GRID_COUNT,
        y < GRID_HEIGHT as int,
    ensures
        sweep_rows_from(s, dir, y).len() == s.len(),
        count_kind(sweep_rows_from(s, dir, y), k) == count_kind(s, k),
    decreases y + 1,
{
    if y >= 0 {
        lemma_sweep_row_counts(s, y, dir, 0, k);
        lemma_sweep_rows_counts(sweep_row_from(s, y, dir, 0), dir, y - 1, k);
    }
}

/// Mass conservation over one tick: settling only ever swaps a sand cell
/// with an empty cell, so the number of cells of every material kind —
/// including every sand color, and therefore the multiset of non-empty
/// kinds — is unchanged by a tick.
pub proof fn lemma_tick_preserves_kind_counts(s: Seq<Elem>, dir: bool, k: ElemKind)
    requires
        s.len() == GRID_COUNT,
    ensures
        spec_tick(s, dir).len() == s.len(),
        count_kind(spec_tick(s, dir), k) == count_kind(s, k),
{
    lemma_sweep_rows_counts(s, dir, GRID_HEIGHT as int - 1, k);
}

/// Mass conservation over any number of ticks.
pub proof fn lemma_ticks_preserve_kind_counts(s: Seq<Elem>, dir: bool, n: nat, k: ElemKind)
    requires
        s.len() == GRID_COUNT,
    ensures
        spec_ticks(s, dir, n).len() == s.len(),
        count_kind(spec_ticks(s, dir, n), k) == count_kind(s, k),
    decreases n,
{
    if n > 0 {
        lemma_tick_preserves_kind_counts(s, dir, k);
        lemma_ticks_preserve_kind_counts(spec_tick(s, dir), !dir, (n - 1) as nat, k);
    }
}

/// How many sand cells sit in rows `r` or deeper (row indices grow toward
/// the bottom of the grid), counted over cell indices from `i` on.
pub open spec fn sand_deep_from(s: Seq<Elem>, r: int, i: int) -> nat
    decreases s.len() - i,
{
    if 0 <= i < s.len() {
        (if s[i].kind is Sand && i / (GRID_WIDTH as int) >= r {
            1nat
        } else {
            0nat
        }) + sand_deep_from(s, r, i + 1)
    } else {
        0
    }
}

/// How many sand cells of the whole grid sit in rows `r` or deeper.
pub open spec fn sand_at_or_deeper(s: Seq<Elem>, r: int) -> nat {
    sand_deep_from(s, r, 0)
}

proof fn lemma_sand_deep_agree(s1: Seq<Elem>, s2: Seq<Elem>, r: int, i: int)
    requires
        s1.len() == s2.len(),
        forall|j: int| i <= j < s1.len() ==> s1[j] == s2[j],
    ensures
        sand_deep_from(s1, r, i) == sand_deep_from(s2, r, i),
    decreases s1.len() - i,
{
    if 0 <= i < s1.len() {
        lemma_sand_deep_agree(s1, s2, r, i + 1);
    }
}

proof fn lemma_sand_deep_update(s: Seq<Elem>, j: int, e: Elem, r: int, i: int)
    requires
        0 <= i <= j < s.len(),
    ensures
        sand_deep_from(s.update(j, e), r, i) + (if s[j].kind is Sand && j / (GRID_WIDTH as int)
            >= r {
            1nat
        } else {
            0nat
        }) == sand_deep_from(s, r, i) + (if e.kind is Sand && j / (GRID_WIDTH as int) >= r {
            1nat
        } else {
            0nat
        }),
    decreases j - i,
{
    let s2 = s.update(j, e);
    if i == j {
        assert(forall|m: int| i + 1 <= m < s.len() ==> s2[m] == s[m]);
        lemma_sand_deep_agree(s2, s, r, i + 1);
    } else {
        lemma_sand_deep_update(s, j, e, r, i + 1);
    }
}

proof fn lemma_row_of_idx(x: int, y: int)
    requires
        0 <= x < GRID_WIDTH as int,
        0 <= y,
    ensures
        spec_idx(x, y) / (GRID_WIDTH as int) == y,
{
    assert((y * 256 + x) / 256 == y) by (nonlinear_arith)
        requires
            0 <= x < 256,
            0 <= y,
    ;
}

/// A swap moves the sand kind one row deeper, so for every depth threshold
/// the amount of sand at that depth or deeper can only grow.
proof fn lemma_swap_sand_deep(s: Seq<Elem>, x: int, y: int, x2: int, r: int)
    requires
        s.len() == GRID_COUNT,
        0 <= x < GRID_WIDTH as int,
        0 <= x2 < GRID_WIDTH as int,
        0 <= y,
        y + 1 < GRID_HEIGHT as int,
        s[spec_idx(x2, y + 1)].kind is Empty,
    ensures
        x2 == x ==> sand_deep_from(move_down(s, x, y), r, 0) >= sand_deep_from(s, r, 0),
        sand_deep_from(move_diag(s, x, y, x2), r, 0) >= sand_deep_from(s, r, 0),
{
    let i1 = spec_idx(x, y);
    let i2 = spec_idx(x2, y + 1);
    assert(i1 != i2);
    assert(0 <= i1 < GRID_COUNT);
    assert(0 <= i2 < GRID_COUNT);
    lemma_row_of_idx(x, y);
    lemma_row_of_idx(x2, y + 1);
    let s1 = s.update(i1, Elem { kind: ElemKind::Empty, moved: false });
    lemma_sand_deep_update(s, i1, Elem { kind: ElemKind::Empty, moved: false }, r, 0);
    assert(s1[i2] == s[i2]);
    lemma_sand_deep_update(s1, i2, Elem { kind: s[i1].kind, moved: false }, r, 0);
    lemma_sand_deep_update(s1, i2, Elem { kind: s[i1].kind, moved: true }, r, 0);
}

proof fn lemma_step_cell_sand_deep(s: Seq<Elem>, x: int, y: int, dir: bool, r: int)
    requires
        s.len() == GRID_COUNT,
        0 <= x < GRID_WIDTH as int,
        0 <= y < GRID_HEIGHT as int,
    ensures
        sand_deep_from(step_cell(s, x, y, dir), r, 0) >= sand_deep_from(s, r, 0),
{
    let i1 = spec_idx(x, y);
    let e = s[i1];
    if e.moved {
        lemma_sand_deep_update(s, i1, Elem { kind: e.kind, moved: false }, r, 0);
    } else if e.kind is Sand {
        if y + 1 < GRID_HEIGHT as int {
            if open_below(s, x, y + 1) {
                lemma_swap_sand_deep(s, x, y, x, r);
            } else if dir {
                if x > 0 && open_below(s, x - 1, y + 1) {
                    lemma_swap_sand_deep(s, x, y, x - 1, r);
                } else if x + 1 < GRID_WIDTH as int && open_below(s, x + 1, y + 1) {
                    lemma_swap_sand_deep(s, x, y, x + 1, r);
                }
            } else {
                if x + 1 < GRID_WIDTH as int && open_below(s, x + 1, y + 1) {
                    lemma_swap_sand_deep(s, x, y, x + 1, r);
                } else if x > 0 && open_below(s, x - 1, y + 1) {
                    lemma_swap_sand_deep(s, x, y, x - 1, r);
                }
            }
        }
    }
}

proof fn lemma_sweep_row_sand_deep(s: Seq<Elem>, y: int, dir: bool, i: int, r: int)
    requires
        s.len() == GRID_COUNT,
        0 <= y < GRID_HEIGHT as int,
    ensures
        sand_deep_from(sweep_row_from(s, y, dir, i), r, 0) >= sand_deep_from(s, r, 0),
    decreases GRID_WIDTH as int - i,
{
    if 0 <= i < GRID_WIDTH as int {
        let x = row_col(y, dir, i);
        lemma_step_cell_sand_deep(s, x, y, dir, r);
        lemma_step_cell_counts(s, x, y, dir, ElemKind::Empty);
        lemma_sweep_row_sand_deep(step_cell(s, x, y, dir), y, dir, i + 1, r);
    }
}

proof fn lemma_sweep_rows_sand_deep(s: Seq<Elem>, dir: bool, y: int, r: int)
    requires
        s.len() == GRID_COUNT,
        y < GRID_HEIGHT as int,
    ensures
        sand_deep_from(sweep_rows_from(s, dir, y), r, 0) >= sand_deep_from(s, r, 0),
    decreases y + 1,
{
    if y >= 0 {
        lemma_sweep_row_sand_deep(s, y, dir, 0, r);
        lemma_sweep_row_counts(s, y, dir, 0, ElemKind::Empty);
        lemma_sweep_rows_sand_deep(sweep_row_from(s, y, dir, 0), dir, y - 1, r);
    }
}

/// No upward motion: every move of a tick takes a sand cell one row deeper,
/// so for every depth threshold `r` the number of sand cells in rows `r` or
/// deeper never shrinks across a tick. In particular no sand cell ends a
/// tick in a smaller row index than any sand arrangement allows.
pub proof fn lemma_tick_no_upward_motion(s: Seq<Elem>, dir: bool, r: int)
    requires
        s.len() == GRID_COUNT,
    ensures
        sand_at_or_deeper(spec_tick(s, dir), r) >= sand_at_or_deeper(s, r),
{
    lemma_sweep_rows_sand_deep(s, dir, GRID_HEIGHT as int - 1, r);
}

/// A cell the settling step leaves untouched: not sand, and not flagged.
pub open spec fn inert(e: Elem) -> bool {
    !e.moved && !(e.kind is Sand)
}

/// A grid of stone and empty cells only, none flagged.
pub open spec fn all_inert(s: Seq<Elem>) -> bool {
    forall|i: int| 0 <= i < s.len() ==> inert(#[trigger] s[i])
}

proof fn lemma_sweep_row_all_inert(s: Seq<Elem>, y: int, dir: bool, i: int)
    requires
        s.len() == GRID_COUNT,
        0 <= y < GRID_HEIGHT as int,
        all_inert(s),
    ensures
        sweep_row_from(s, y, dir, i) == s,
    decreases GRID_WIDTH as int - i,
{
    if 0 <= i < GRID_WIDTH as int {
        let x = row_col(y, dir, i);
        assert(0 <= spec_idx(x, y) < GRID_COUNT);
        assert(step_cell(s, x, y, dir) == s);
        lemma_sweep_row_all_inert(s, y, dir, i + 1);
    }
}

proof fn lemma_sweep_rows_all_inert(s: Seq<Elem>, dir: bool, y: int)
    requires
        s.len() == GRID_COUNT,
        y < GRID_HEIGHT as int,
        all_inert(s),
    ensures
        sweep_rows_from(s, dir, y) == s,
    decreases y + 1,
{
    if y >= 0 {
        lemma_sweep_row_all_inert(s, y, dir, 0);
        lemma_sweep_rows_all_inert(s, dir, y - 1);
    }
}

/// Stone immobility: a grid containing only stone and empty cells, none
/// flagged as moved, is a fixed point of one settling tick.
pub proof fn lemma_stone_grid_fixed_point(s: Seq<Elem>, dir: bool)
    requires
        s.len() == GRID_COUNT,
        all_inert(s),
    ensures
        spec_tick(s, dir) == s,
{
    lemma_sweep_rows_all_inert(s, dir, GRID_HEIGHT as int - 1);
}

/// Stone immobility over any number of ticks: ticking a sand-free grid any
/// number of times produces an identical grid.
pub proof fn lemma_stone_grid_fixed_point_ticks(s: Seq<Elem>, dir: bool, n: nat)
    requires
        s.len() == GRID_COUNT,
        all_inert(s),
    ensures
        spec_ticks(s, dir, n) == s,
    decreases n,
{
    if n > 0 {
        lemma_stone_grid_fixed_point(s, dir);
        lemma_stone_grid_fixed_point_ticks(spec_tick(s, dir), !dir, (n - 1) as nat);
    }
}

proof fn lemma_idx_inj(x: int, y: int, x2: int, y2: int)
    requires
        0 <= x < GRID_WIDTH as int,
        0 <= x2 < GRID_WIDTH as int,
        spec_idx(x, y) == spec_idx(x2, y2),
    ensures
        x == x2 && y == y2,
{
}

/// The settling step of one cell changes nothing in its own row besides the
/// cell itself, and nothing in any earlier row: only the cell and possibly a
/// destination in the row below it are written.
proof fn lemma_step_cell_frame(s: Seq<Elem>, x: int, y: int, dir: bool)
    requires
        s.len() == GRID_COUNT,
        0 <= x < GRID_WIDTH as int,
        0 <= y < GRID_HEIGHT as int,
    ensures
        step_cell(s, x, y, dir).len() == s.len(),
        forall|m: int|
            0 <= m < s.len() && m != spec_idx(x, y) && m < (y + 1) * GRID_WIDTH as int
                ==> #[trigger] step_cell(s, x, y, dir)[m] == s[m],
{
    lemma_step_cell_counts(s, x, y, dir, ElemKind::Empty);
}

proof fn lemma_sweep_row_skip(s: Seq<Elem>, y: int, dir: bool, i: int)
    requires
        s.len() == GRID_COUNT,
        0 <= y < GRID_HEIGHT as int,
        forall|j: int|
            i <= j < GRID_WIDTH as int ==> inert(s[spec_idx(#[trigger] row_col(y, dir, j), y)]),
    ensures
        sweep_row_from(s, y, dir, i) == s,
    decreases GRID_WIDTH as int - i,
{
    if 0 <= i < GRID_WIDTH as int {
        let x = row_col(y, dir, i);
        assert(inert(s[spec_idx(row_col(y, dir, i), y)]));
        assert(step_cell(s, x, y, dir) == s);
        lemma_sweep_row_skip(s, y, dir, i + 1);
    }
}

proof fn lemma_rows_skip(s: Seq<Elem>, dir: bool, y: int, stop: int)
    requires
        s.len() == GRID_COUNT,
        -1 <= stop <= y,
        y < GRID_HEIGHT as int,
        forall|x: int, yy: int|
            0 <= x < GRID_WIDTH as int && stop < yy <= y ==> inert(#[trigger] s[spec_idx(x, yy)]),
    ensures
        sweep_rows_from(s, dir, y) == sweep_rows_from(s, dir, stop),
    decreases y - stop,
{
    if y > stop {
        assert forall|j: int| 0 <= j < GRID_WIDTH as int implies inert(
            s[spec_idx(#[trigger] row_col(y, dir, j), y)],
        ) by {
            assert(0 <= row_col(y, dir, j) < GRID_WIDTH as int);
            assert(inert(s[spec_idx(row_col(y, dir, j), y)]));
        }
        lemma_sweep_row_skip(s, y, dir, 0);
        lemma_rows_skip(s, dir, y - 1, stop);
    }
}

proof fn lemma_sweep_row_single_from(s: Seq<Elem>, y: int, dir: bool, i: int, x0: int)
    requires
        s.len() == GRID_COUNT,
        0 <= y < GRID_HEIGHT as int,
        0 <= x0 < GRID_WIDTH as int,
        0 <= i <= (if row_left_to_right(y, dir) {
            x0
        } else {
            GRID_WIDTH as int - 1 - x0
        }),
        forall|x: int|
            0 <= x < GRID_WIDTH as int && x != x0 ==> inert(#[trigger] s[spec_idx(x, y)]),
    ensures
        sweep_row_from(s, y, dir, i) == step_cell(s, x0, y, dir),
    decreases (if row_left_to_right(y, dir) {
        x0
    } else {
        GRID_WIDTH as int - 1 - x0
    }) - i,
{
    let i0: int = if row_left_to_right(y, dir) {
        x0
    } else {
        GRID_WIDTH as int - 1 - x0
    };
    if i == i0 {
        assert(row_col(y, dir, i0) == x0);
        let s1 = step_cell(s, x0, y, dir);
        lemma_step_cell_frame(s, x0, y, dir);
        assert forall|j: int| i0 + 1 <= j < GRID_WIDTH as int implies inert(
            s1[spec_idx(#[trigger] row_col(y, dir, j), y)],
        ) by {
            let xj = row_col(y, dir, j);
            assert(xj != x0);
            assert(spec_idx(xj, y) < (y + 1) * GRID_WIDTH as int);
            assert(spec_idx(xj, y) != spec_idx(x0, y));
            assert(s1[spec_idx(xj, y)] == s[spec_idx(xj, y)]);
        }
        lemma_sweep_row_skip(s1, y, dir, i0 + 1);
    } else {
        let x = row_col(y, dir, i);
        assert(x != x0);
        assert(inert(s[spec_idx(x, y)]));
        assert(step_cell(s, x, y, dir) == s);
        lemma_sweep_row_single_from(s, y, dir, i + 1, x0);
    }
}

/// Sweeping a row whose only non-inert cell is at column `x0` is exactly
/// the single settling step of that cell.
proof fn lemma_sweep_row_single(s: Seq<Elem>, y: int, dir: bool, x0: int)
    requires
        s.len() == GRID_COUNT,
        0 <= y < GRID_HEIGHT as int,
        0 <= x0 < GRID_WIDTH as int,
        forall|x: int|
            0 <= x < GRID_WIDTH as int && x != x0 ==> inert(#[trigger] s[spec_idx(x, y)]),
    ensures
        sweep_row_from(s, y, dir, 0) == step_cell(s, x0, y, dir),
{
    lemma_sweep_row_single_from(s, y, dir, 0, x0);
}

/// A tick of a grid whose only non-inert cell is the one at `(x0, y0)` is
/// exactly that cell's single settling step.
proof fn lemma_tick_single_active(s: Seq<Elem>, x0: int, y0: int, dir: bool)
    requires
        s.len() == GRID_COUNT,
        0 <= x0 < GRID_WIDTH as int,
        0 <= y0 < GRID_HEIGHT as int,
        forall|i: int| 0 <= i < GRID_COUNT && i != spec_idx(x0, y0) ==> inert(#[trigger] s[i]),
    ensures
        spec_tick(s, dir) == step_cell(s, x0, y0, dir),
{
    assert forall|x: int, yy: int|
        0 <= x < GRID_WIDTH as int && y0 < yy <= GRID_HEIGHT as int - 1 implies inert(
        #[trigger] s[spec_idx(x, yy)],
    ) by {
        assert(0 <= spec_idx(x, yy) < GRID_COUNT);
        if spec_idx(x, yy) == spec_idx(x0, y0) {
            lemma_idx_inj(x, yy, x0, y0);
        }
    }
    lemma_rows_skip(s, dir, GRID_HEIGHT as int - 1, y0);
    assert forall|x: int| 0 <= x < GRID_WIDTH as int && x != x0 implies inert(
        #[trigger] s[spec_idx(x, y0)],
    ) by {
        assert(0 <= spec_idx(x, y0) < GRID_COUNT);
        if spec_idx(x, y0) == spec_idx(x0, y0) {
            lemma_idx_inj(x, y0, x0, y0);
        }
    }
    lemma_sweep_row_single(s, y0, dir, x0);
    let s1 = step_cell(s, x0, y0, dir);
    lemma_step_cell_frame(s, x0, y0, dir);
    assert forall|x: int, yy: int|
        0 <= x < GRID_WIDTH as int && -1 < yy <= y0 - 1 implies inert(
        #[trigger] s1[spec_idx(x, yy)],
    ) by {
        assert(0 <= spec_idx(x, yy) < GRID_COUNT);
        assert(spec_idx(x, yy) < (y0 + 1) * GRID_WIDTH as int);
        if spec_idx(x, yy) == spec_idx(x0, y0) {
            lemma_idx_inj(x, yy, x0, y0);
        }
        assert(s1[spec_idx(x, yy)] == s[spec_idx(x, yy)]);
    }
    lemma_rows_skip(s1, dir, y0 - 1, -1);
}

/// Bias alternation: a single sand grain blocked straight down by stone,
/// with both diagonal cells below it empty, resolves the tie to the
/// bias-preferred side — down-left when the tick bias is true, down-right
/// when it is false. Since the engine toggles the bias after every tick,
/// two consecutive ticks on this configuration resolve the tie in opposite
/// directions.
pub proof fn lemma_bias_resolves_tie(s: Seq<Elem>, x0: int, y0: int, c: SandColor, dir: bool)
    requires
        s.len() == GRID_COUNT,
        0 < x0,
        x0 + 1 < GRID_WIDTH as int,
        0 <= y0,
        y0 + 1 < GRID_HEIGHT as int,
        s[spec_idx(x0, y0)] == (Elem { kind: ElemKind::Sand(c), moved: false }),
        s[spec_idx(x0, y0 + 1)].kind is Stone,
        s[spec_idx(x0 - 1, y0 + 1)].kind is Empty,
        s[spec_idx(x0 + 1, y0 + 1)].kind is Empty,
        forall|i: int| 0 <= i < GRID_COUNT && i != spec_idx(x0, y0) ==> inert(#[trigger] s[i]),
    ensures
        spec_tick(s, dir) == move_diag(s, x0, y0, if dir {
            x0 - 1
        } else {
            x0 + 1
        }),
        spec_tick(s, dir)[spec_idx(if dir {
            x0 - 1
        } else {
            x0 + 1
        }, y0 + 1)] == (Elem { kind: ElemKind::Sand(c), moved: true }),
        spec_tick(s, dir)[spec_idx(x0, y0)] == (Elem { kind: ElemKind::Empty, moved: false }),
{
    lemma_tick_single_active(s, x0, y0, dir);
    let x2: int = if dir {
        x0 - 1
    } else {
        x0 + 1
    };
    assert(step_cell(s, x0, y0, dir) == move_diag(s, x0, y0, x2));
    assert(spec_idx(x0, y0) != spec_idx(x2, y0 + 1));
}

/// A single sand grain above a flat stone floor: the bottom row is all
/// stone, the cell at `(x0, y0)` holds unflagged sand, and every other cell
/// is empty and unflagged.
pub open spec fn single_grain_over_floor(s: Seq<Elem>, x0: int, y0: int, c: SandColor) -> bool {
    &&& s.len() == GRID_COUNT
    &&& 0 <= x0 < GRID_WIDTH as int
    &&& 0 <= y0 < GRID_HEIGHT as int - 1
    &&& (forall|x: int|
        0 <= x < GRID_WIDTH as int ==> #[trigger] s[spec_idx(x, GRID_HEIGHT as int - 1)] == (Elem {
            kind: ElemKind::Stone,
            moved: false,
        }))
    &&& s[spec_idx(x0, y0)] == (Elem { kind: ElemKind::Sand(c), moved: false })
    &&& (forall|x: int, y: int|
        0 <= x < GRID_WIDTH as int && 0 <= y < GRID_HEIGHT as int - 1 && !(x == x0 && y == y0)
            ==> #[trigger] s[spec_idx(x, y)] == (Elem { kind: ElemKind::Empty, moved: false }))
}

proof fn lemma_grain_config_inert(s: Seq<Elem>, x0: int, y0: int, c: SandColor)
    requires
        single_grain_over_floor(s, x0, y0, c),
    ensures
        forall|i: int| 0 <= i < GRID_COUNT && i != spec_idx(x0, y0) ==> inert(#[trigger] s[i]),
{
    assert forall|i: int| 0 <= i < GRID_COUNT && i != spec_idx(x0, y0) implies inert(
        #[trigger] s[i],
    ) by {
        let x = i % (GRID_WIDTH as int);
        let y = i / (GRID_WIDTH as int);
        assert(0 <= x < GRID_WIDTH as int);
        assert(spec_idx(x, y) == i);
        assert(0 <= y < GRID_HEIGHT as int);
        if y == GRID_HEIGHT as int - 1 {
            assert(s[spec_idx(x, y)] == (Elem { kind: ElemKind::Stone, moved: false }));
        } else {
            assert(s[spec_idx(x, y)] == (Elem { kind: ElemKind::Empty, moved: false }));
        }
    }
}

/// With empty space below it, the grain falls straight down by one row per
/// tick, whatever the bias.
proof fn lemma_grain_falls(s: Seq<Elem>, x0: int, y0: int, c: SandColor, dir: bool)
    requires
        single_grain_over_floor(s, x0, y0, c),
        y0 < GRID_HEIGHT as int - 2,
    ensures
        single_grain_over_floor(spec_tick(s, dir), x0, y0 + 1, c),
{
    lemma_grain_config_inert(s, x0, y0, c);
    lemma_tick_single_active(s, x0, y0, dir);
    assert(s[spec_idx(x0, y0 + 1)] == (Elem { kind: ElemKind::Empty, moved: false }));
    assert(open_below(s, x0, y0 + 1));
    let s1 = move_down(s, x0, y0);
    assert(spec_tick(s, dir) == s1);
    let src = spec_idx(x0, y0);
    let dst = spec_idx(x0, y0 + 1);
    assert(src != dst);
    assert(s1[dst] == (Elem { kind: ElemKind::Sand(c), moved: false }));
    assert forall|x: int|
        0 <= x < GRID_WIDTH as int implies #[trigger] s1[spec_idx(x, GRID_HEIGHT as int - 1)]
        == (Elem { kind: ElemKind::Stone, moved: false }) by {
        assert(spec_idx(x, GRID_HEIGHT as int - 1) != src);
        assert(spec_idx(x, GRID_HEIGHT as int - 1) != dst);
    }
    assert forall|x: int, y: int|
        0 <= x < GRID_WIDTH as int && 0 <= y < GRID_HEIGHT as int - 1 && !(x == x0 && y == y0
            + 1) implies #[trigger] s1[spec_idx(x, y)] == (Elem {
        kind: ElemKind::Empty,
        moved: false,
    }) by {
        let i = spec_idx(x, y);
        if i == src {
            assert(s1[i] == (Elem { kind: ElemKind::Empty, moved: false }));
        } else {
            if i == dst {
                lemma_idx_inj(x, y, x0, y0 + 1);
                assert(false);
            }
            assert(s1[i] == s[i]);
            if x == x0 && y == y0 {
                lemma_idx_inj(x, y, x0, y0);
                assert(false);
            }
            assert(s[i] == (Elem { kind: ElemKind::Empty, moved: false }));
        }
    }
}

/// Resting directly above the floor, the grain cannot move: straight down
/// and both diagonals land on the stone floor row.
proof fn lemma_grain_rests(s: Seq<Elem>, x0: int, y0: int, c: SandColor, dir: bool)
    requires
        single_grain_over_floor(s, x0, y0, c),
        y0 == GRID_HEIGHT as int - 2,
    ensures
        spec_tick(s, dir) == s,
{
    lemma_grain_config_inert(s, x0, y0, c);
    lemma_tick_single_active(s, x0, y0, dir);
    assert(s[spec_idx(x0, y0 + 1)].kind is Stone);
    assert(x0 > 0 ==> s[spec_idx(x0 - 1, y0 + 1)].kind is Stone);
    assert(x0 + 1 < GRID_WIDTH as int ==> s[spec_idx(x0 + 1, y0 + 1)].kind is Stone);
    assert(step_cell(s, x0, y0, dir) == s);
}

/// Settling convergence for a single grain over a flat stone floor: within
/// `GRID_HEIGHT as int - 2 - y0` ticks — fewer than the grid height — the
/// grid reaches the configuration with the grain resting directly above the
/// floor, and that configuration is a fixed point of every further tick,
/// under either bias.
pub proof fn lemma_single_grain_settles(
    s: Seq<Elem>,
    x0: int,
    y0: int,
    c: SandColor,
    dir: bool,
    n: nat,
)
    requires
        single_grain_over_floor(s, x0, y0, c),
        n >= GRID_HEIGHT as int - 2 - y0,
    ensures
        single_grain_over_floor(spec_ticks(s, dir, n), x0, GRID_HEIGHT as int - 2, c),
        forall|d2: bool| spec_tick(#[trigger] spec_ticks(s, dir, n), d2) == spec_ticks(s, dir, n),
    decreases n,
{
    if y0 == GRID_HEIGHT as int - 2 {
        if n == 0 {
            assert(spec_ticks(s, dir, 0) == s);
            assert forall|d2: bool| spec_tick(#[trigger] spec_ticks(s, dir, n), d2) == spec_ticks(
                s,
                dir,
                n,
            ) by {
                lemma_grain_rests(s, x0, y0, c, d2);
            }
        } else {
            lemma_grain_rests(s, x0, y0, c, dir);
            lemma_single_grain_settles(s, x0, y0, c, !dir, (n - 1) as nat);
            assert(spec_ticks(s, dir, n) == spec_ticks(spec_tick(s, dir), !dir, (n - 1) as nat));
        }
    } else {
        lemma_grain_falls(s, x0, y0, c, dir);
        lemma_single_grain_settles(spec_tick(s, dir), x0, y0 + 1, c, !dir, (n - 1) as nat);
    }
}

/// Whether stone sits in exactly the same cells of two grids.
pub open spec fn stone_in_place(s1: Seq<Elem>, s2: Seq<Elem>) -> bool {
    forall|i: int| 0 <= i < s1.len() ==> (s1[i].kind is Stone <==> (#[trigger] s2[i]).kind is Stone)
}

proof fn lemma_step_cell_stone(s: Seq<Elem>, x: int, y: int, dir: bool)
    requires
        s.len() == GRID_COUNT,
        0 <= x < GRID_WIDTH as int,
        0 <= y < GRID_HEIGHT as int,
    ensures
        stone_in_place(s, step_cell(s, x, y, dir)),
{
    let s2 = step_cell(s, x, y, dir);
    let i1 = spec_idx(x, y);
    let e = s[i1];
    assert forall|i: int| 0 <= i < s.len() implies (s[i].kind is Stone <==> (
    #[trigger] s2[i]).kind is Stone) by {
        if e.moved {
            assert(s2 == s.update(i1, Elem { kind: e.kind, moved: false }));
        } else if e.kind is Sand && y + 1 < GRID_HEIGHT as int {
            // a move, if any, writes empty over the sand cell and the sand
            // kind over an empty cell: no stone appears or disappears
            if open_below(s, x, y + 1) {
                assert(s2 == move_down(s, x, y));
            } else if dir {
                if x > 0 && open_below(s, x - 1, y + 1) {
                    assert(s2 == move_diag(s, x, y, x - 1));
                } else if x + 1 < GRID_WIDTH as int && open_below(s, x + 1, y + 1) {
                    assert(s2 == move_diag(s, x, y, x + 1));
                } else {
                    assert(s2 == s);
                }
            } else {
                if x + 1 < GRID_WIDTH as int && open_below(s, x + 1, y + 1) {
                    assert(s2 == move_diag(s, x, y, x + 1));
                } else if x > 0 && open_below(s, x - 1, y + 1) {
                    assert(s2 == move_diag(s, x, y, x - 1));
                } else {
                    assert(s2 == s);
                }
            }
        } else {
            assert(s2 == s);
        }
    }
}

proof fn lemma_sweep_row_stone(s: Seq<Elem>, y: int, dir: bool, i: int)
    requires
        s.len() == GRID_COUNT,
        0 <= y < GRID_HEIGHT as int,
    ensures
        sweep_row_from(s, y, dir, i).len() == s.len(),
        stone_in_place(s, sweep_row_from(s, y, dir, i)),
    decreases GRID_WIDTH as int - i,
{
    if 0 <= i < GRID_WIDTH as int {
        let x = row_col(y, dir, i);
        let s1 = step_cell(s, x, y, dir);
        lemma_step_cell_stone(s, x, y, dir);
        lemma_step_cell_counts(s, x, y, dir, ElemKind::Empty);
        lemma_sweep_row_stone(s1, y, dir, i + 1);
    }
}

proof fn lemma_sweep_rows_stone(s: Seq<Elem>, dir: bool, y: int)
    requires
        s.len() == GRID_COUNT,
        y < GRID_HEIGHT as int,
    ensures
        sweep_rows_from(s, dir, y).len() == s.len(),
        stone_in_place(s, sweep_rows_from(s, dir, y)),
    decreases y + 1,
{
    if y >= 0 {
        let s1 = sweep_row_from(s, y, dir, 0);
        lemma_sweep_row_stone(s, y, dir, 0);
        lemma_sweep_rows_stone(s1, dir, y - 1);
    }
}

/// Stone permanence in any grid: a tick neither moves, creates, nor
/// destroys stone — after a tick every cell holds stone exactly where it
/// did before, whatever sand does around it.
pub proof fn lemma_tick_keeps_stone_in_place(s: Seq<Elem>, dir: bool)
    requires
        s.len() == GRID_COUNT,
    ensures
        stone_in_place(s, spec_tick(s, dir)),
{
    lemma_sweep_rows_stone(s, dir, GRID_HEIGHT as int - 1);
}

/// Stone permanence over any number of ticks.
pub proof fn lemma_ticks_keep_stone_in_place(s: Seq<Elem>, dir: bool, n: nat)
    requires
        s.len() == GRID_COUNT,
    ensures
        spec_ticks(s, dir, n).len() == s.len(),
        stone_in_place(s, spec_ticks(s, dir, n)),
    decreases n,
{
    if n > 0 {
        lemma_tick_keeps_stone_in_place(s, dir);
        lemma_tick_preserves_kind_counts(s, dir, ElemKind::Stone);
        lemma_ticks_keep_stone_in_place(spec_tick(s, dir), !dir, (n - 1) as nat);
    }
}

} // verus!
