//! A falling-sand cellular automaton: a fixed-size grid of material cells
//! (empty space, static stone, mobile sand) that settles downward once per
//! simulation tick, is painted live from pointer input, and is projected to
//! an RGBA color buffer for display.

pub mod edit;
pub mod geom;
pub mod grid;
pub mod laws;
pub mod render;
pub mod settle;
