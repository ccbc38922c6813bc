//! Render projection: maps grid state to a row-major RGBA color buffer.
//! Stone and empty cells use a fixed kind-to-color mapping; sand cells get a
//! deterministic per-position color jitter, so static sand looks grainy and
//! the same position always renders the same color. A pure function of the
//! grid: nothing here mutates it.

use vstd::prelude::*;

use crate::grid::{ElemKind, ElemPos, GridCells, SandColor, GRID_COUNT, GRID_HEIGHT, GRID_WIDTH};

verus! {

/// One display color: RGBA channels, one byte each.
#[derive(Clone, Copy, PartialEq, Eq, Structural, Debug)]
pub struct Rgba {
    pub r: u8,
    pub g: u8,
    pub b: u8,
    pub a: u8,
}

/// The deterministic per-position value that drives sand color jitter: a
/// fixed mixing of the coordinates alone, so it depends on neither the tick
/// nor any seed.
pub open spec fn spec_pos_hash(x: int, y: int) -> int {
    x * 0x9E37_79B9 + y * 0x85EB_CA6B
}

fn pos_hash(x: u32, y: u32) -> (h: u64)
    requires
        x < GRID_WIDTH,
        y < GRID_HEIGHT,
    ensures
        h as int == spec_pos_hash(x as int, y as int),
{
    (x as u64) * 0x9E37_79B9u64 + (y as u64) * 0x85EB_CA6Bu64
}

/// `v` forced into the channel range `[lo, hi]`.
pub open spec fn clamp_int(v: int, lo: int, hi: int) -> int {
    if v < lo {
        lo
    } else if v > hi {
        hi
    } else {
        v
    }
}

fn clamp_channel(v: i32, lo: u8, hi: u8) -> (r: u8)
    requires
        lo <= hi,
    ensures
        r as int == clamp_int(v as int, lo as int, hi as int),
{
    if v < lo as i32 {
        lo
    } else if v > hi as i32 {
        hi
    } else {
        v as u8
    }
}

/// The fixed base color of each material kind: empty is transparent black,
/// stone a flat gray, and each sand tag a distinct flat hue.
pub open spec fn spec_base_color(kind: ElemKind) -> Rgba {
    match kind {
        ElemKind::Empty => Rgba { r: 0, g: 0, b: 0, a: 0 },
        ElemKind::Stone => Rgba { r: 115, g: 115, b: 115, a: 255 },
        ElemKind::Sand(sand_color) => match sand_color {
            SandColor::Yellow => Rgba { r: 242, g: 209, b: 51, a: 255 },
            SandColor::Red => Rgba { r: 235, g: 64, b: 64, a: 255 },
            SandColor::Blue => Rgba { r: 51, g: 115, b: 242, a: 255 },
            SandColor::Green => Rgba { r: 64, g: 217, b: 64, a: 255 },
        },
    }
}

/// The display color of the cell kind at `pos`: the base color, perturbed
/// for sand by the per-position jitter, each channel clamped within small
/// fixed bounds around its base value.
pub open spec fn spec_varied_color(kind: ElemKind, pos: ElemPos) -> Rgba {
    match kind {
        ElemKind::Sand(sand_color) => {
            let h = spec_pos_hash(pos.x as int, pos.y as int);
            let rv = h % 32;
            let gv = (h / 0x100) % 32;
            let bv = (h / 0x10000) % 32;
            match sand_color {
                SandColor::Yellow => Rgba {
                    r: clamp_int(242 + rv - 16, 204, 255) as u8,
                    g: clamp_int(209 + gv - 16, 178, 242) as u8,
                    b: clamp_int(51 + bv - 16, 25, 102) as u8,
                    a: 255,
                },
                SandColor::Red => Rgba {
                    r: clamp_int(235 + rv - 16, 191, 255) as u8,
                    g: clamp_int(64 + gv - 16, 38, 115) as u8,
                    b: clamp_int(64 + bv - 16, 38, 102) as u8,
                    a: 255,
                },
                SandColor::Blue => Rgba {
                    r: clamp_int(51 + rv - 16, 25, 76) as u8,
                    g: clamp_int(115 + gv - 16, 89, 153) as u8,
                    b: clamp_int(242 + bv - 16, 204, 255) as u8,
                    a: 255,
                },
                SandColor::Green => Rgba {
                    r: clamp_int(64 + rv - 16, 38, 89) as u8,
                    g: clamp_int(217 + gv - 16, 191, 242) as u8,
                    b: clamp_int(64 + bv - 16, 38, 89) as u8,
                    a: 255,
                },
            }
        },
        _ => spec_base_color(kind),
    }
}

impl ElemKind {
    /// The fixed base color of this material kind.
    pub fn get_base_color(&self) -> (r: Rgba)
        ensures
            r == spec_base_color(*self),
    {
        match self {
            ElemKind::Empty => Rgba { r: 0, g: 0, b: 0, a: 0 },
            ElemKind::Stone => Rgba { r: 115, g: 115, b: 115, a: 255 },
            ElemKind::Sand(sand_color) => match sand_color {
                SandColor::Yellow => Rgba { r: 242, g: 209, b: 51, a: 255 },
                SandColor::Red => Rgba { r: 235, g: 64, b: 64, a: 255 },
                SandColor::Blue => Rgba { r: 51, g: 115, b: 242, a: 255 },
                SandColor::Green => Rgba { r: 64, g: 217, b: 64, a: 255 },
            },
        }
    }

    /// The display color of this kind at `pos`, jittered for sand.
    pub fn get_varied_color_from_position(&self, pos: ElemPos) -> (r: Rgba)
        requires
            pos.spec_in_bounds(),
        ensures
            r == spec_varied_color(*self, pos),
    {
        match self {
            ElemKind::Sand(sand_color) => {
                let h = pos_hash(pos.x, pos.y);
                let rv = (h % 32) as i32;
                let gv = ((h / 0x100) % 32) as i32;
                let bv = ((h / 0x10000) % 32) as i32;
                match sand_color {
                    SandColor::Yellow => Rgba {
                        r: clamp_channel(242 + rv - 16, 204, 255),
                        g: clamp_channel(209 + gv - 16, 178, 242),
                        b: clamp_channel(51 + bv - 16, 25, 102),
                        a: 255,
                    },
                    SandColor::Red => Rgba {
                        r: clamp_channel(235 + rv - 16, 191, 255),
                        g: clamp_channel(64 + gv - 16, 38, 115),
                        b: clamp_channel(64 + bv - 16, 38, 102),
                        a: 255,
                    },
                    SandColor::Blue => Rgba {
                        r: clamp_channel(51 + rv - 16, 25, 76),
                        g: clamp_channel(115 + gv - 16, 89, 153),
                        b: clamp_channel(242 + bv - 16, 204, 255),
                        a: 255,
                    },
                    SandColor::Green => Rgba {
                        r: clamp_channel(64 + rv - 16, 38, 89),
                        g: clamp_channel(217 + gv - 16, 191, 242),
                        b: clamp_channel(64 + bv - 16, 38, 89),
                        a: 255,
                    },
                }
            },
            _ => self.get_base_color(),
        }
    }
}

/// Projects the whole grid to a color buffer: one color per cell, row-major,
/// each the varied color of that cell's kind at its position.
pub fn draw_image(grid_cells: &GridCells) -> (buffer: Vec<Rgba>)
    requires
        grid_cells.wf(),
    ensures
        buffer@.len() == GRID_COUNT,
        forall|i: int|
            0 <= i < GRID_COUNT ==> #[trigger] buffer@[i] == spec_varied_color(
                grid_cells@[i].kind,
                ElemPos { x: (i % (GRID_WIDTH as int)) as u32, y: (i / (GRID_WIDTH as int)) as u32 },
            ),
{
    let mut buffer: Vec<Rgba> = Vec::new();
    let mut y: u32 = 0;
    while y < GRID_HEIGHT
        invariant
            y <= GRID_HEIGHT,
            grid_cells.wf(),
            buffer@.len() == y as int * GRID_WIDTH as int,
            forall|i: int|
                0 <= i < buffer@.len() ==> #[trigger] buffer@[i] == spec_varied_color(
                    grid_cells@[i].kind,
                    ElemPos {
                        x: (i % (GRID_WIDTH as int)) as u32,
                        y: (i / (GRID_WIDTH as int)) as u32,
                    },
                ),
        decreases GRID_HEIGHT - y,
    {
        let mut x: u32 = 0;
        while x < GRID_WIDTH
            invariant
                x <= GRID_WIDTH,
                y < GRID_HEIGHT,
                grid_cells.wf(),
                buffer@.len() == y as int * GRID_WIDTH as int + x as int,
                forall|i: int|
                    0 <= i < buffer@.len() ==> #[trigger] buffer@[i] == spec_varied_color(
                        grid_cells@[i].kind,
                        ElemPos {
                            x: (i % (GRID_WIDTH as int)) as u32,
                            y: (i / (GRID_WIDTH as int)) as u32,
                        },
                    ),
            decreases GRID_WIDTH - x,
        {
            let elem_pos = ElemPos::new(x, y);
            let elem = grid_cells.get_elem_at(elem_pos).unwrap();
            let elem_color = elem.kind.get_varied_color_from_position(elem_pos);
            proof {
                assert((y as int * GRID_WIDTH as int + x as int) % (GRID_WIDTH as int) == x as int
                    && (y as int * GRID_WIDTH as int + x as int) / (GRID_WIDTH as int) == y as int)
                    by (nonlinear_arith)
                    requires
                        0 <= x as int && (x as int) < GRID_WIDTH as int,
                        0 <= y as int,
                        GRID_WIDTH as int == 256,
                ;
            }
            buffer.push(elem_color);
            x = x + 1;
        }
        y = y + 1;
    }
    buffer
}

} // verus!
