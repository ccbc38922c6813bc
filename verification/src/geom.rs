//! World-to-grid coordinate mapping: the integer core of resolving a world
//! point to a grid position.

use vstd::prelude::*;

use crate::grid::{ElemPos, GRID_HEIGHT, GRID_WIDTH};

verus! {

/// Maps a grid-local cell coordinate to a grid position. `gx` and `gy` are
/// the floored column and row of a world point's offset from the grid's
/// lower-left world-space corner, measured in cells (the caller subtracts
/// the grid's half-extent from the world point, divides by the cell scale
/// and floors; world Y grows upward). The row axis is inverted: local row
/// `0` resolves to grid row `GRID_HEIGHT - 1`, because grid storage rows
/// grow downward while world Y grows upward. Every renderer and input
/// adapter must respect this flip. Coordinates outside the grid resolve to
/// `None`.
pub fn local_to_grid(gx: i64, gy: i64) -> (r: Option<ElemPos>)
    ensures
        r == (if 0 <= gx && gx < GRID_WIDTH as i64 && 0 <= gy && gy < GRID_HEIGHT as i64 {
            Some(ElemPos { x: gx as u32, y: (GRID_HEIGHT as i64 - 1 - gy) as u32 })
        } else {
            None::<ElemPos>
        }),
{
    if gx >= 0 && gy >= 0 && gx < GRID_WIDTH as i64 && gy < GRID_HEIGHT as i64 {
        Some(ElemPos::new(gx as u32, GRID_HEIGHT - 1 - (gy as u32)))
    } else {
        None
    }
}

} // verus!
