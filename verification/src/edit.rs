//! The edit engine: selection state, drag continuity, line rasterization for
//! gap-free strokes, and the paint pass with its overwrite policy.

use vstd::prelude::*;

use crate::grid::{Elem, ElemKind, ElemPos, GridCells, SandColor, GRID_HEIGHT, GRID_WIDTH};
use crate::settle::spec_idx;

verus! {

/// The currently selected paint material and radius. The radius is accepted
/// but always forced to `1`: multi-cell painting is an unimplemented
/// extension point.
pub struct UserSelectedElements {
    pub kind: ElemKind,
    pub radius: u32,
}

impl UserSelectedElements {
    pub fn single(kind: ElemKind) -> (r: Self)
        ensures
            r.kind == kind,
            r.radius == 1,
    {
        UserSelectedElements { kind, radius: 1 }
    }
}

/// Drag-continuity state: the grid position painted by the previous pointer
/// sample, or `None` when the pointer was not pressed over the grid.
pub struct PrevMousePos(pub Option<ElemPos>);

impl Default for PrevMousePos {
    fn default() -> (r: Self)
        ensures
            r.0 is None,
    {
        PrevMousePos(None)
    }
}

/// The state advanced by one iteration of the line walk: the stepped
/// coordinates and the updated error accumulator.
pub open spec fn bres_next(x: int, y: int, dx: int, dy: int, sx: int, sy: int, err: int) -> (
    int,
    int,
    int,
) {
    let e2 = 2 * err;
    let xn = if e2 > -dy {
        x + sx
    } else {
        x
    };
    let err1 = if e2 > -dy {
        err - dy
    } else {
        err
    };
    let yn = if e2 < dx {
        y + sy
    } else {
        y
    };
    let err2 = if e2 < dx {
        err1 + dx
    } else {
        err1
    };
    (xn, yn, err2)
}

/// The line walk's internal invariant: the deltas and steps are consistent
/// with the endpoints, the remaining distance on each axis lies between zero
/// and that axis's delta, and the error accumulator equals its closed form
/// in the steps already taken.
pub open spec fn bres_inv(
    x: int,
    y: int,
    x1: int,
    y1: int,
    dx: int,
    dy: int,
    sx: int,
    sy: int,
    err: int,
) -> bool {
    &&& dx >= 0
    &&& dy >= 0
    &&& (sx == 1 || sx == -1)
    &&& (sy == 1 || sy == -1)
    &&& 0 <= sx * (x1 - x) <= dx
    &&& 0 <= sy * (y1 - y) <= dy
    &&& err == dx - dy - dy * (dx - sx * (x1 - x)) + dx * (dy - sy * (y1 - y))
}

/// One walk step keeps the invariant, makes progress toward the target, and
/// never oversteps either axis.
proof fn lemma_bres_step(
    x: int,
    y: int,
    x1: int,
    y1: int,
    dx: int,
    dy: int,
    sx: int,
    sy: int,
    err: int,
)
    requires
        bres_inv(x, y, x1, y1, dx, dy, sx, sy, err),
        !(x == x1 && y == y1),
    ensures
        ({
            let (xn, yn, err2) = bres_next(x, y, dx, dy, sx, sy, err);
            &&& bres_inv(xn, yn, x1, y1, dx, dy, sx, sy, err2)
            &&& 0 <= sx * (x1 - xn) + sy * (y1 - yn) < sx * (x1 - x) + sy * (y1 - y)
        }),
{
    let a = sx * (x1 - x);
    let b = sy * (y1 - y);
    assert((a == 0 ==> x == x1) && (b == 0 ==> y == y1)) by (nonlinear_arith)
        requires
            a == sx * (x1 - x),
            b == sy * (y1 - y),
            sx == 1 || sx == -1,
            sy == 1 || sy == -1,
    ;
    let e2 = 2 * err;
    if a == 0 {
        // the x axis is finished: the walk must not step x, and must step y
        assert(b >= 1);
        assert(e2 <= -dy && e2 < dx) by (nonlinear_arith)
            requires
                e2 == 2 * err,
                err == dx - dy - dy * (dx - a) + dx * (dy - b),
                a == 0,
                1 <= b <= dy,
                0 <= dx,
        ;
    } else if b == 0 {
        // the y axis is finished: the walk must step x, and must not step y
        assert(e2 > -dy && !(e2 < dx)) by (nonlinear_arith)
            requires
                e2 == 2 * err,
                err == dx - dy - dy * (dx - a) + dx * (dy - b),
                b == 0,
                1 <= a <= dx,
                0 <= dy,
        ;
    } else {
        // both axes still have distance left: at least one axis steps
        assert(dx >= 1 || dy >= 1);
        assert(e2 > -dy || e2 < dx);
    }
    let (xn, yn, err2) = bres_next(x, y, dx, dy, sx, sy, err);
    let an = sx * (x1 - xn);
    let bn = sy * (y1 - yn);
    if e2 > -dy {
        assert(an == a - 1) by (nonlinear_arith)
            requires
                an == sx * (x1 - (x + sx)),
                a == sx * (x1 - x),
                sx == 1 || sx == -1,
        ;
    } else {
        assert(an == a);
    }
    if e2 < dx {
        assert(bn == b - 1) by (nonlinear_arith)
            requires
                bn == sy * (y1 - (y + sy)),
                b == sy * (y1 - y),
                sy == 1 || sy == -1,
        ;
    } else {
        assert(bn == b);
    }
    assert(err2 == dx - dy - dy * (dx - an) + dx * (dy - bn)) by (nonlinear_arith)
        requires
            err == dx - dy - dy * (dx - a) + dx * (dy - b),
            err2 == err + (if 2 * err > -dy {
                -dy
            } else {
                0
            }) + (if 2 * err < dx {
                dx
            } else {
                0
            }),
            an == (if 2 * err > -dy {
                a - 1
            } else {
                a
            }),
            bn == (if 2 * err < dx {
                b - 1
            } else {
                b
            }),
    ;
}

#[via_fn]
proof fn bres_rest_decreases(
    x: int,
    y: int,
    x1: int,
    y1: int,
    dx: int,
    dy: int,
    sx: int,
    sy: int,
    err: int,
) {
    if !(x == x1 && y == y1) {
        lemma_bres_step(x, y, x1, y1, dx, dy, sx, sy, err);
    }
}

/// The positions the line walk still visits from state `(x, y, err)` on,
/// excluding `(x, y)` itself and including the endpoint `(x1, y1)`.
pub open spec fn bres_rest(
    x: int,
    y: int,
    x1: int,
    y1: int,
    dx: int,
    dy: int,
    sx: int,
    sy: int,
    err: int,
) -> Seq<(int, int)>
    decreases sx * (x1 - x) + sy * (y1 - y),
        when bres_inv(x, y, x1, y1, dx, dy, sx, sy, err) via bres_rest_decreases
{
    if x == x1 && y == y1 {
        Seq::empty()
    } else {
        let (xn, yn, err2) = bres_next(x, y, dx, dy, sx, sy, err);
        seq![(xn, yn)] + bres_rest(xn, yn, x1, y1, dx, dy, sx, sy, err2)
    }
}

pub open spec fn abs_of(v: int) -> int {
    if v >= 0 {
        v
    } else {
        -v
    }
}

pub open spec fn sign_step(from: int, to: int) -> int {
    if from < to {
        1
    } else {
        -1
    }
}

/// The integer line from `(x0, y0)` to `(x1, y1)`: the exact position
/// sequence of the classic integer error-accumulator walk, excluding the
/// starting point and including the end point. The degenerate line is the
/// single-point sequence of its endpoint.
pub open spec fn bres_path(x0: int, y0: int, x1: int, y1: int) -> Seq<(int, int)> {
    if x0 == x1 && y0 == y1 {
        seq![(x0, y1)]
    } else {
        bres_rest(
            x0,
            y0,
            x1,
            y1,
            abs_of(x1 - x0),
            abs_of(y1 - y0),
            sign_step(x0, x1),
            sign_step(y0, y1),
            abs_of(x1 - x0) - abs_of(y1 - y0),
        )
    }
}

/// A grid position as a pair of plain coordinates.
pub open spec fn pos_pair(p: ElemPos) -> (int, int) {
    (p.x as int, p.y as int)
}

/// A position sequence as a sequence of plain coordinate pairs.
pub open spec fn path_of(ps: Seq<ElemPos>) -> Seq<(int, int)> {
    ps.map_values(|p: ElemPos| pos_pair(p))
}

/// Rasterizes the line between two sampled pointer positions so a fast drag
/// paints every cell the stroke crosses. The result is exactly the integer
/// line walk of [`bres_path`]: it excludes the starting point (already
/// painted by the previous sample) and includes the end point, and every
/// returned position lies within the grid.
pub fn bresenham_line(x0: i32, y0: i32, x1: i32, y1: i32) -> (r: Vec<ElemPos>)
    requires
        0 <= x0 < GRID_WIDTH as i32,
        0 <= y0 < GRID_HEIGHT as i32,
        0 <= x1 < GRID_WIDTH as i32,
        0 <= y1 < GRID_HEIGHT as i32,
    ensures
        path_of(r@) == bres_path(x0 as int, y0 as int, x1 as int, y1 as int),
        forall|i: int| 0 <= i < r@.len() ==> (#[trigger] r@[i]).spec_in_bounds(),
{
    if x0 == x1 && y0 == y1 {
        let mut single_point: Vec<ElemPos> = Vec::new();
        single_point.push(ElemPos::new(x0 as u32, y1 as u32));
        proof {
            assert(path_of(single_point@) =~= bres_path(x0 as int, y0 as int, x1 as int, y1 as int));
        }
        return single_point;
    }
    let mut points: Vec<ElemPos> = Vec::new();

    let dx: i32 = if x1 > x0 {
        x1 - x0
    } else {
        x0 - x1
    };
    let dy: i32 = if y1 > y0 {
        y1 - y0
    } else {
        y0 - y1
    };
    let sx: i32 = if x0 < x1 {
        1
    } else {
        -1
    };
    let sy: i32 = if y0 < y1 {
        1
    } else {
        -1
    };

    let mut err: i32 = dx - dy;
    let mut x: i32 = x0;
    let mut y: i32 = y0;

    let ghost full = bres_path(x0 as int, y0 as int, x1 as int, y1 as int);

    proof {
        assert(sx as int * (x1 as int - x0 as int) == dx as int && sy as int * (y1 as int
            - y0 as int) == dy as int) by (nonlinear_arith)
            requires
                sx as int == (if (x0 as int) < (x1 as int) {
                    1int
                } else {
                    -1int
                }),
                sy as int == (if (y0 as int) < (y1 as int) {
                    1int
                } else {
                    -1int
                }),
                dx as int == (if (x1 as int) > (x0 as int) {
                    x1 as int - x0 as int
                } else {
                    x0 as int - x1 as int
                }),
                dy as int == (if (y1 as int) > (y0 as int) {
                    y1 as int - y0 as int
                } else {
                    y0 as int - y1 as int
                }),
        ;
        assert(dy as int * (dx as int - sx as int * (x1 as int - x0 as int)) == 0
            && dx as int * (dy as int - sy as int * (y1 as int - y0 as int)) == 0)
            by (nonlinear_arith)
            requires
                sx as int * (x1 as int - x0 as int) == dx as int,
                sy as int * (y1 as int - y0 as int) == dy as int,
        ;
        assert(bres_inv(x0 as int, y0 as int, x1 as int, y1 as int, dx as int, dy as int,
            sx as int, sy as int, err as int));
        assert(dx as int == abs_of(x1 as int - x0 as int));
        assert(dy as int == abs_of(y1 as int - y0 as int));
        assert(sx as int == sign_step(x0 as int, x1 as int));
        assert(sy as int == sign_step(y0 as int, y1 as int));
        assert(full == bres_rest(x0 as int, y0 as int, x1 as int, y1 as int, dx as int,
            dy as int, sx as int, sy as int, err as int));
    }

    loop
        invariant_except_break
            !(x0 == x1 && y0 == y1),
            0 <= x0 && x0 < GRID_WIDTH as i32,
            0 <= y0 && y0 < GRID_HEIGHT as i32,
            0 <= x1 && x1 < GRID_WIDTH as i32,
            0 <= y1 && y1 < GRID_HEIGHT as i32,
            sx as int * (x1 as int - x0 as int) == dx as int,
            sy as int * (y1 as int - y0 as int) == dy as int,
            dx as int == abs_of(x1 as int - x0 as int),
            dy as int == abs_of(y1 as int - y0 as int),
            sx as int == sign_step(x0 as int, x1 as int),
            sy as int == sign_step(y0 as int, y1 as int),
            full == bres_path(x0 as int, y0 as int, x1 as int, y1 as int),
            full == bres_rest(x0 as int, y0 as int, x1 as int, y1 as int, dx as int, dy as int,
                sx as int, sy as int, dx as int - dy as int),
            bres_inv(x as int, y as int, x1 as int, y1 as int, dx as int, dy as int, sx as int,
                sy as int, err as int),
            0 <= x < GRID_WIDTH as i32,
            0 <= y < GRID_HEIGHT as i32,
            forall|i: int| 0 <= i < points@.len() ==> (#[trigger] points@[i]).spec_in_bounds(),
            (x == x0 && y == y0) ==> (points@.len() == 0 && err == dx - dy),
            !(x == x0 && y == y0) ==> {
                &&& path_of(points@) + seq![(x as int, y as int)] + bres_rest(
                    x as int,
                    y as int,
                    x1 as int,
                    y1 as int,
                    dx as int,
                    dy as int,
                    sx as int,
                    sy as int,
                    err as int,
                ) == full
                &&& sx as int * (x1 as int - x as int) + sy as int * (y1 as int - y as int) < dx
                    as int + dy as int
            },
        ensures
            path_of(points@) == full,
            forall|i: int| 0 <= i < points@.len() ==> (#[trigger] points@[i]).spec_in_bounds(),
        decreases sx as int * (x1 as int - x as int) + sy as int * (y1 as int - y as int),
    {
        let ghost was_start = x == x0 && y == y0;
        let ghost x_here: int = x as int;
        let ghost y_here: int = y as int;
        let ghost rest_here = bres_rest(x as int, y as int, x1 as int, y1 as int, dx as int,
            dy as int, sx as int, sy as int, err as int);
        proof {
            if was_start {
                assert(rest_here == full);
            }
        }
        if !(x == x0 && y == y0) {
            let ghost pts_before = points@;
            let p = ElemPos::new(x as u32, y as u32);
            points.push(p);
            proof {
                assert(path_of(points@) =~= path_of(pts_before) + seq![(x as int, y as int)]);
            }
        }
        proof {
            assert(path_of(points@) + rest_here =~= full);
        }

        if x == x1 && y == y1 {
            proof {
                assert(rest_here =~= Seq::<(int, int)>::empty());
                assert(path_of(points@) =~= full);
            }
            break;
        }

        proof {
            lemma_bres_step(x as int, y as int, x1 as int, y1 as int, dx as int, dy as int,
                sx as int, sy as int, err as int);
            assert(-70000 <= err && err <= 70000) by (nonlinear_arith)
                requires
                    err as int == dx as int - dy as int - dy as int * (dx as int - sx as int * (
                        x1 as int - x as int)) + dx as int * (dy as int - sy as int * (y1 as int
                        - y as int)),
                    0 <= sx as int * (x1 as int - x as int) <= dx as int,
                    0 <= sy as int * (y1 as int - y as int) <= dy as int,
                    0 <= dx as int && dx < 256,
                    0 <= dy as int && dy < 256,
            ;
        }

        let ghost err_here: int = err as int;
        let e2: i32 = 2 * err;

        if e2 > -dy {
            err = err - dy;
            x = x + sx;
        }
        if e2 < dx {
            err = err + dx;
            y = y + sy;
        }

        proof {
            assert((x as int, y as int, err as int) == bres_next(x_here, y_here, dx as int,
                dy as int, sx as int, sy as int, err_here));
            assert(rest_here == seq![(x as int, y as int)] + bres_rest(x as int, y as int,
                x1 as int, y1 as int, dx as int, dy as int, sx as int, sy as int, err as int));
            assert(0 <= x as int && (x as int) < GRID_WIDTH as int && 0 <= y as int && (y as int) < GRID_HEIGHT as int)
                by (nonlinear_arith)
                requires
                    0 <= sx as int * (x1 as int - x as int) <= dx as int,
                    0 <= sy as int * (y1 as int - y as int) <= dy as int,
                    sx as int == 1 || sx as int == -1,
                    sy as int == 1 || sy as int == -1,
                    sx as int * (x1 as int - x0 as int) == dx as int,
                    sy as int * (y1 as int - y0 as int) == dy as int,
                    0 <= x0 as int && (x0 as int) < GRID_WIDTH as int,
                    0 <= x1 as int && (x1 as int) < GRID_WIDTH as int,
                    0 <= y0 as int && (y0 as int) < GRID_HEIGHT as int,
                    0 <= y1 as int && (y1 as int) < GRID_HEIGHT as int,
            ;
            assert(path_of(points@) + seq![(x as int, y as int)] + bres_rest(x as int, y as int,
                x1 as int, y1 as int, dx as int, dy as int, sx as int, sy as int, err as int)
                =~= full);
            assert(sx as int * (x1 as int - x as int) + sy as int * (y1 as int - y as int) < dx
                as int + dy as int);
        }
    }
    points
}

/// The cell that results from painting material `kind` onto cell `e`: an
/// empty cell takes the painted material, the eraser (painting `Empty`)
/// clears any cell, and solid material never overwrites solid material.
pub open spec fn painted_cell(e: Elem, kind: ElemKind) -> Elem {
    if e.kind is Empty || kind is Empty {
        Elem { kind, moved: false }
    } else {
        e
    }
}

/// The grid after painting `kind` onto the single position `t`.
pub open spec fn paint_at(s: Seq<Elem>, t: (int, int), kind: ElemKind) -> Seq<Elem> {
    s.update(spec_idx(t.0, t.1), painted_cell(s[spec_idx(t.0, t.1)], kind))
}

/// The grid after painting `kind` onto every target position in sequence
/// order.
pub open spec fn paint_all(s: Seq<Elem>, targets: Seq<(int, int)>, kind: ElemKind) -> Seq<Elem>
    decreases targets.len(),
{
    if targets.len() == 0 {
        s
    } else {
        paint_all(paint_at(s, targets[0], kind), targets.skip(1), kind)
    }
}

/// The positions one pointer sample paints: the rasterized line from the
/// remembered previous position to the current one, or the current position
/// alone when no previous position is remembered.
pub open spec fn stroke_targets(prev: Option<ElemPos>, current: ElemPos) -> Seq<(int, int)> {
    match prev {
        Some(p) => bres_path(p.x as int, p.y as int, current.x as int, current.y as int),
        None => seq![(current.x as int, current.y as int)],
    }
}

/// One pointer sample of the edit engine. `current` is the sample already
/// resolved to a grid position, or `None` when the button is up or the
/// cursor does not resolve into the grid: then nothing is painted and the
/// drag-continuity state is cleared. Otherwise every stroke target is
/// painted under the overwrite policy of [`painted_cell`], and the current
/// position is remembered for the next sample.
pub fn user_adds_element(
    grid_cells: &mut GridCells,
    selected_elems: &UserSelectedElements,
    previous_mouse_pos: &mut PrevMousePos,
    current: Option<ElemPos>,
)
    requires
        old(grid_cells).wf(),
        (old(previous_mouse_pos).0 matches Some(p) ==> p.spec_in_bounds()),
        (current matches Some(c) ==> c.spec_in_bounds()),
    ensures
        final(grid_cells).wf(),
        current is None ==> final(grid_cells)@ == old(grid_cells)@
            && final(previous_mouse_pos).0 is None,
        (current matches Some(c) ==> final(grid_cells)@ == paint_all(
            old(grid_cells)@,
            stroke_targets(old(previous_mouse_pos).0, c),
            selected_elems.kind,
        ) && final(previous_mouse_pos).0 == Some(c)),
{
    if let Some(current_pos) = current {
        let all_click_squares: Vec<ElemPos> = if let Some(previous_m_pos) = previous_mouse_pos.0 {
            bresenham_line(
                previous_m_pos.x as i32,
                previous_m_pos.y as i32,
                current_pos.x as i32,
                current_pos.y as i32,
            )
        } else {
            let mut single_target: Vec<ElemPos> = Vec::new();
            single_target.push(current_pos);
            proof {
                assert(path_of(single_target@) =~= seq![
                    (current_pos.x as int, current_pos.y as int),
                ]);
            }
            single_target
        };
        let ghost s0 = grid_cells@;
        let ghost tpath = path_of(all_click_squares@);
        proof {
            assert(tpath == stroke_targets(old(previous_mouse_pos).0, current_pos));
            assert(tpath.skip(0) =~= tpath);
        }
        let mut t: usize = 0;
        while t < all_click_squares.len()
            invariant
                grid_cells.wf(),
                t <= all_click_squares@.len(),
                tpath == path_of(all_click_squares@),
                forall|i: int|
                    0 <= i < all_click_squares@.len() ==> (
                    #[trigger] all_click_squares@[i]).spec_in_bounds(),
                paint_all(grid_cells@, tpath.skip(t as int), selected_elems.kind) == paint_all(
                    s0,
                    tpath,
                    selected_elems.kind,
                ),
            decreases all_click_squares@.len() - t,
        {
            let sq_pos = all_click_squares[t];
            proof {
                assert(tpath[t as int] == pos_pair(sq_pos));
                assert(spec_idx(pos_pair(sq_pos).0, pos_pair(sq_pos).1) == sq_pos.spec_idx());
            }
            let ghost before = grid_cells@;
            let elem = grid_cells.get_elem_at(sq_pos).unwrap();
            if elem.kind == ElemKind::Empty || selected_elems.kind == ElemKind::Empty {
                grid_cells.set_elem_at(sq_pos, Elem::new(selected_elems.kind, false)).unwrap();
            }
            proof {
                assert(grid_cells@ =~= paint_at(before, tpath[t as int], selected_elems.kind));
                assert(tpath.skip(t as int)[0] == tpath[t as int]);
                assert(tpath.skip(t as int).skip(1) =~= tpath.skip(t as int + 1));
                assert(paint_all(before, tpath.skip(t as int), selected_elems.kind) == paint_all(
                    grid_cells@,
                    tpath.skip(t as int + 1),
                    selected_elems.kind,
                ));
            }
            t = t + 1;
        }
        proof {
            assert(tpath.skip(all_click_squares@.len() as int).len() == 0);
        }
        previous_mouse_pos.0 = Some(current_pos);
    } else {
        previous_mouse_pos.0 = None;
    }
}

/// The next paint material in the selection cycle.
pub open spec fn next_paint_kind(kind: ElemKind) -> ElemKind {
    match kind {
        ElemKind::Empty => ElemKind::Sand(SandColor::Yellow),
        ElemKind::Sand(_) => ElemKind::Stone,
        ElemKind::Stone => ElemKind::Empty,
    }
}

/// Applies one frame of selection input: a "cycle material" trigger advances
/// Empty -> Sand -> Stone -> Empty (fresh sand takes the default color tag),
/// and a "radius" trigger forces the radius to exactly 1, its only
/// implemented value.
pub fn user_selects_element(
    element_selection: &mut UserSelectedElements,
    cycle_kind: bool,
    reset_radius: bool,
)
    ensures
        final(element_selection).kind == (if cycle_kind {
            next_paint_kind(old(element_selection).kind)
        } else {
            old(element_selection).kind
        }),
        final(element_selection).radius == (if reset_radius {
            1u32
        } else {
            old(element_selection).radius
        }),
{
    let toggled_elem_kind: Option<ElemKind> = if cycle_kind {
        match element_selection.kind {
            ElemKind::Empty => Some(ElemKind::Sand(SandColor::Yellow)),
            ElemKind::Sand(_) => Some(ElemKind::Stone),
            ElemKind::Stone => Some(ElemKind::Empty),
        }
    } else {
        None
    };
    let toggled_radius: Option<u32> = if reset_radius {
        Some(1)
    } else {
        None
    };
    if let Some(kind) = toggled_elem_kind {
        element_selection.kind = kind;
    }
    if let Some(radius) = toggled_radius {
        element_selection.radius = radius;
    }
}

} // verus!
