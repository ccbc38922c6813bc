//! The grid store: fixed dimensions, the cell type, grid positions with their
//! bounds and border predicates, and bounds-checked accessors.

use vstd::prelude::*;

verus! {

/// Number of columns of the grid.
pub const GRID_WIDTH: u32 = 256;

/// Number of rows of the grid. Row `0` is the top of the visual grid; row
/// `GRID_HEIGHT - 1` is the bottom, the direction in which sand settles.
pub const GRID_HEIGHT: u32 = 192;

/// Number of cells of the grid: `GRID_WIDTH * GRID_HEIGHT`.
pub const GRID_COUNT: usize = 49152;

/// A pair of grid dimensions.
pub struct GridSize {
    pub width: u32,
    pub height: u32,
}

impl GridSize {
    pub fn new(width: u32, height: u32) -> (r: Self)
        ensures
            r.width == width,
            r.height == height,
    {
        GridSize { width, height }
    }

    pub fn count(&self) -> (r: usize)
        requires
            self.width as int * self.height as int <= u32::MAX as int,
        ensures
            r == self.width as int * self.height as int,
    {
        (self.width * self.height) as usize
    }
}

/// The palette tag a sand cell carries, fixed at creation and used only for
/// rendering variety, never for physics.
#[derive(Default, Clone, Copy, PartialEq, Eq, Structural, Debug)]
pub enum SandColor {
    #[default]
    Yellow,
    Red,
    Blue,
    Green,
}

/// The material of one cell: empty space, immobile stone, or mobile sand
/// with its color tag.
#[derive(Clone, Copy, PartialEq, Eq, Structural, Debug)]
pub enum ElemKind {
    Empty,
    Stone,
    Sand(SandColor),
}

/// One cell: its material kind and the transient moved-this-tick flag that
/// keeps a cell relocated diagonally during the current sweep from being
/// reprocessed.
#[derive(Clone, Copy, PartialEq, Eq, Structural, Debug)]
pub struct Elem {
    pub kind: ElemKind,
    pub moved: bool,
}

impl Elem {
    pub fn new(kind: ElemKind, moved: bool) -> (r: Self)
        ensures
            r == (Elem { kind, moved }),
    {
        Elem { kind, moved }
    }
}

/// A grid position: column `x` in `[0, GRID_WIDTH)`, row `y` in
/// `[0, GRID_HEIGHT)` when in bounds.
#[derive(Clone, Copy, PartialEq, Eq, Structural, Hash, Debug)]
pub struct ElemPos {
    pub x: u32,
    pub y: u32,
}

impl ElemPos {
    pub fn new(x: u32, y: u32) -> (r: Self)
        ensures
            r == (ElemPos { x, y }),
    {
        ElemPos { x, y }
    }

    /// Index of this position in the row-major backing array.
    pub open spec fn spec_idx(&self) -> int {
        self.y as int * GRID_WIDTH as int + self.x as int
    }

    pub open spec fn spec_in_bounds(&self) -> bool {
        self.x < GRID_WIDTH && self.y < GRID_HEIGHT
    }

    pub fn in_bounds(&self) -> (r: bool)
        ensures
            r == self.spec_in_bounds(),
    {
        self.y < GRID_HEIGHT && self.x < GRID_WIDTH
    }

    /// Whether a row exists below this position (settling moves toward
    /// larger row indices).
    pub open spec fn spec_in_border_bottom(&self) -> bool {
        self.y + 1 < GRID_HEIGHT
    }

    pub fn in_border_bottom(&self) -> (r: bool)
        ensures
            r == self.spec_in_border_bottom(),
    {
        self.y < GRID_HEIGHT - 1
    }

    /// Whether a column exists to the left of this position.
    pub open spec fn spec_in_border_left(&self) -> bool {
        self.x > 0
    }

    pub fn in_border_left(&self) -> (r: bool)
        ensures
            r == self.spec_in_border_left(),
    {
        self.x > 0
    }

    /// Whether a column exists to the right of this position.
    pub open spec fn spec_in_border_right(&self) -> bool {
        self.x + 1 < GRID_WIDTH
    }

    pub fn in_border_right(&self) -> (r: bool)
        ensures
            r == self.spec_in_border_right(),
    {
        self.x < GRID_WIDTH - 1
    }
}

/// The cell array: `GRID_COUNT` cells in row-major order, indexed as
/// `y * GRID_WIDTH + x`.
#[derive(Clone)]
pub struct GridCells {
    pub cells: Vec<Elem>,
}

impl View for GridCells {
    type V = Seq<Elem>;

    open spec fn view(&self) -> Seq<Elem> {
        self.cells@
    }
}

impl GridCells {
    /// Well-formedness: the backing array holds exactly one cell per grid
    /// position.
    pub open spec fn wf(&self) -> bool {
        self@.len() == GRID_COUNT
    }

    /// A grid filled entirely with empty cells.
    pub fn new_empty() -> (r: Self)
        ensures
            r.wf(),
            forall|i: int|
                0 <= i < GRID_COUNT ==> r@[i] == (Elem { kind: ElemKind::Empty, moved: false }),
    {
        let mut cells: Vec<Elem> = Vec::new();
        let mut i: usize = 0;
        while i < GRID_COUNT
            invariant
                i <= GRID_COUNT,
                cells@.len() == i,
                forall|j: int|
                    0 <= j < i ==> cells@[j] == (Elem { kind: ElemKind::Empty, moved: false }),
            decreases GRID_COUNT - i,
        {
            cells.push(Elem::new(ElemKind::Empty, false));
            i = i + 1;
        }
        GridCells { cells }
    }

    /// Bounds-checked read: the cell at `pos`, or `None` out of bounds.
    pub fn get_elem_at(&self, pos: ElemPos) -> (r: Option<Elem>)
        requires
            self.wf(),
        ensures
            r == (if pos.spec_in_bounds() {
                Some(self@[pos.spec_idx()])
            } else {
                None::<Elem>
            }),
    {
        if pos.in_bounds() {
            Some(self.cells[(pos.y * GRID_WIDTH + pos.x) as usize])
        } else {
            None
        }
    }

    /// Bounds-checked write: replaces the cell at `pos`, or reports `None`
    /// out of bounds, leaving the grid unchanged.
    pub fn set_elem_at(&mut self, pos: ElemPos, elem: Elem) -> (r: Option<()>)
        requires
            old(self).wf(),
        ensures
            final(self).wf(),
            final(self)@ == (if pos.spec_in_bounds() {
                old(self)@.update(pos.spec_idx(), elem)
            } else {
                old(self)@
            }),
            r == (if pos.spec_in_bounds() {
                Some(())
            } else {
                None::<()>
            }),
    {
        if pos.in_bounds() {
            self.cells[(pos.y * GRID_WIDTH + pos.x) as usize] = elem;
            Some(())
        } else {
            None
        }
    }
}

} // verus!
