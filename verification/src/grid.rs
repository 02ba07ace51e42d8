//! The grid: a flat, row-major buffer of cells with bounds-checked access.

use vstd::prelude::*;
use vstd::arithmetic::div_mod::{lemma_fundamental_div_mod, lemma_mod_bound};
use crate::cell::{Cell, Species};

verus! {

/// The mathematical value of a grid.
pub struct GridView {
    pub width: int,
    pub height: int,
    pub cells: Seq<Cell>,
    pub generation: u8,
}

impl GridView {
    /// The buffer holds exactly `width * height` cells.
    pub open spec fn wf(self) -> bool {
        &&& 0 <= self.width
        &&& 0 <= self.height
        &&& self.cells.len() == self.width * self.height
    }

    pub open spec fn in_bounds(self, x: int, y: int) -> bool {
        0 <= x < self.width && 0 <= y < self.height
    }

    /// Row-major position of `(x, y)` in the buffer.
    pub open spec fn index(self, x: int, y: int) -> int {
        y * self.width + x
    }

    /// The column of the cell at position `i` of the buffer.
    pub open spec fn col_of(self, i: int) -> int {
        i % self.width
    }

    /// The row of the cell at position `i` of the buffer.
    pub open spec fn row_of(self, i: int) -> int {
        i / self.width
    }

    /// The cell at `(x, y)`; outside the grid, a synthetic Wall.
    pub open spec fn get(self, x: int, y: int) -> Cell {
        if self.in_bounds(x, y) {
            self.cells[self.index(x, y)]
        } else {
            Cell::of(Species::Wall)
        }
    }

    /// The grid with `cell` written at `(x, y)`; outside the grid, unchanged.
    pub open spec fn set(self, x: int, y: int, cell: Cell) -> GridView {
        if self.in_bounds(x, y) {
            GridView { cells: self.cells.update(self.index(x, y), cell), ..self }
        } else {
            self
        }
    }

    /// A write through the access view: the cell is stamped with
    /// `generation` before it is stored.
    pub open spec fn put(self, x: int, y: int, cell: Cell, generation: u8) -> GridView {
        self.set(x, y, cell.stamped(generation))
    }

    /// The cell at `(x, y)` and the cell at `(tx, ty)` exchange places, both
    /// stamped with `generation`.
    pub open spec fn swap_into(self, x: int, y: int, tx: int, ty: int, generation: u8) -> GridView {
        self.put(x, y, self.get(tx, ty), generation).put(tx, ty, self.get(x, y), generation)
    }

    /// `cell` is written at `(tx, ty)` and a fresh Empty cell is left at
    /// `(x, y)`, both stamped with `generation`.
    pub open spec fn relocate(
        self,
        x: int,
        y: int,
        tx: int,
        ty: int,
        cell: Cell,
        generation: u8,
    ) -> GridView {
        self.put(x, y, Cell::of(Species::Empty), generation).put(tx, ty, cell, generation)
    }

    /// Same dimensions and generation; only cell contents may differ.
    pub open spec fn same_shape(self, other: GridView) -> bool {
        &&& self.width == other.width
        &&& self.height == other.height
        &&& self.generation == other.generation
    }
}

/// Every in-bounds coordinate has a position inside the buffer.
pub proof fn lemma_index_in_range(g: GridView, x: int, y: int)
    requires
        g.wf(),
        g.in_bounds(x, y),
    ensures
        0 <= g.index(x, y) < g.cells.len(),
{
    assert(y * g.width + x < g.width * g.height) by (nonlinear_arith)
        requires
            0 <= x < g.width,
            0 <= y < g.height,
    ;
    assert(0 <= y * g.width) by (nonlinear_arith)
        requires
            0 <= y,
            0 <= g.width,
    ;
}

/// Distinct in-bounds coordinates have distinct positions in the buffer.
pub proof fn lemma_index_injective(g: GridView, x1: int, y1: int, x2: int, y2: int)
    requires
        g.wf(),
        g.in_bounds(x1, y1),
        g.in_bounds(x2, y2),
        g.index(x1, y1) == g.index(x2, y2),
    ensures
        x1 == x2,
        y1 == y2,
{
    assert(y1 == y2) by (nonlinear_arith)
        requires
            0 <= x1 < g.width,
            0 <= x2 < g.width,
            y1 * g.width + x1 == y2 * g.width + x2,
    ;
}

/// Every position of the buffer is that of its own column and row.
pub proof fn lemma_coords_of_index(g: GridView, i: int)
    requires
        g.wf(),
        0 <= i < g.cells.len(),
    ensures
        g.in_bounds(g.col_of(i), g.row_of(i)),
        g.index(g.col_of(i), g.row_of(i)) == i,
        g.get(g.col_of(i), g.row_of(i)) == g.cells[i],
{
    let w = g.width;
    let h = g.height;
    assert(w > 0) by (nonlinear_arith)
        requires
            0 <= w,
            0 <= i < w * h,
    ;
    lemma_fundamental_div_mod(i, w);
    lemma_mod_bound(i, w);
    let q = i / w;
    let r = i % w;
    assert(0 <= q < h) by (nonlinear_arith)
        requires
            w > 0,
            i == w * q + r,
            0 <= r < w,
            0 <= i < w * h,
    ;
    assert(q * w + r == i) by (nonlinear_arith)
        requires
            i == w * q + r,
    ;
}

/// A write keeps the grid well-formed and is seen by a read at the same
/// coordinate and by no other read.
pub proof fn lemma_set_get(g: GridView, x: int, y: int, cell: Cell, x2: int, y2: int)
    requires
        g.wf(),
    ensures
        g.set(x, y, cell).wf(),
        g.set(x, y, cell).same_shape(g),
        g.set(x, y, cell).get(x2, y2) == if g.in_bounds(x, y) && x2 == x && y2 == y {
            cell
        } else {
            g.get(x2, y2)
        },
{
    if g.in_bounds(x, y) {
        lemma_index_in_range(g, x, y);
        if g.in_bounds(x2, y2) {
            lemma_index_in_range(g, x2, y2);
            if g.index(x, y) == g.index(x2, y2) {
                lemma_index_injective(g, x, y, x2, y2);
            }
        }
    }
}

/// A read at an in-bounds coordinate right after a write there returns
/// exactly the cell written.
pub proof fn lemma_set_then_get(g: GridView, x: int, y: int, cell: Cell)
    requires
        g.wf(),
        g.in_bounds(x, y),
    ensures
        g.set(x, y, cell).get(x, y) == cell,
{
    lemma_set_get(g, x, y, cell, x, y);
}

/// Outside the grid a read returns Wall and a write changes nothing.
pub proof fn lemma_out_of_bounds(g: GridView, x: int, y: int, cell: Cell)
    requires
        !g.in_bounds(x, y),
    ensures
        g.get(x, y) == Cell::of(Species::Wall),
        g.set(x, y, cell) == g,
        g.put(x, y, cell, g.generation) == g,
{
}

/// A read through the access view right after a write through it at an
/// in-bounds coordinate returns the cell written, with its clock set to
/// the generation of the view.
pub proof fn lemma_put_then_get(g: GridView, x: int, y: int, cell: Cell, generation: u8)
    requires
        g.wf(),
        g.in_bounds(x, y),
    ensures
        g.put(x, y, cell, generation).get(x, y).species == cell.species,
        g.put(x, y, cell, generation).get(x, y).ra == cell.ra,
        g.put(x, y, cell, generation).get(x, y).rb == cell.rb,
        g.put(x, y, cell, generation).get(x, y).clock == generation,
{
    lemma_set_get(g, x, y, cell.stamped(generation), x, y);
}

/// A stamped write keeps the grid well-formed and its shape.
pub proof fn lemma_put_shape(g: GridView, x: int, y: int, cell: Cell, generation: u8)
    requires
        g.wf(),
    ensures
        g.put(x, y, cell, generation).wf(),
        g.put(x, y, cell, generation).same_shape(g),
{
    lemma_set_get(g, x, y, cell.stamped(generation), x, y);
}

/// An exchange of two cells keeps the grid well-formed and its shape.
pub proof fn lemma_swap_into_shape(g: GridView, x: int, y: int, tx: int, ty: int, generation: u8)
    requires
        g.wf(),
    ensures
        g.swap_into(x, y, tx, ty, generation).wf(),
        g.swap_into(x, y, tx, ty, generation).same_shape(g),
{
    lemma_put_shape(g, x, y, g.get(tx, ty), generation);
    lemma_put_shape(g.put(x, y, g.get(tx, ty), generation), tx, ty, g.get(x, y), generation);
}

/// After an exchange of two distinct cells inside the grid each holds the
/// other, stamped, and every other cell is as it was.
pub proof fn lemma_swap_into_get(
    g: GridView,
    x: int,
    y: int,
    tx: int,
    ty: int,
    generation: u8,
    x2: int,
    y2: int,
)
    requires
        g.wf(),
        g.in_bounds(x, y),
        g.in_bounds(tx, ty),
        x != tx || y != ty,
    ensures
        g.swap_into(x, y, tx, ty, generation).get(x2, y2) == if x2 == tx && y2 == ty {
            g.get(x, y).stamped(generation)
        } else if x2 == x && y2 == y {
            g.get(tx, ty).stamped(generation)
        } else {
            g.get(x2, y2)
        },
{
    let first = g.get(tx, ty).stamped(generation);
    lemma_set_get(g, x, y, first, x2, y2);
    lemma_set_get(g.set(x, y, first), tx, ty, g.get(x, y).stamped(generation), x2, y2);
}

/// A relocation keeps the grid well-formed and its shape.
pub proof fn lemma_relocate_shape(
    g: GridView,
    x: int,
    y: int,
    tx: int,
    ty: int,
    cell: Cell,
    generation: u8,
)
    requires
        g.wf(),
    ensures
        g.relocate(x, y, tx, ty, cell, generation).wf(),
        g.relocate(x, y, tx, ty, cell, generation).same_shape(g),
{
    lemma_put_shape(g, x, y, Cell::of(Species::Empty), generation);
    lemma_put_shape(g.put(x, y, Cell::of(Species::Empty), generation), tx, ty, cell, generation);
}

/// 2D grid of cells. Out-of-bounds reads return Wall, writes are no-ops.
#[derive(Debug)]
pub struct Grid {
    pub width: usize,
    pub height: usize,
    pub cells: Vec<Cell>,
    pub generation: u8,
}

impl View for Grid {
    type V = GridView;

    open spec fn view(&self) -> GridView {
        GridView {
            width: self.width as int,
            height: self.height as int,
            cells: self.cells@,
            generation: self.generation,
        }
    }
}

impl Grid {
    /// The buffer holds `width * height` cells and every coordinate fits the
    /// signed coordinate type.
    pub open spec fn wf(&self) -> bool {
        &&& self.width <= i32::MAX
        &&& self.height <= i32::MAX
        &&& self.cells@.len() == self.width * self.height
    }

    /// A grid of the given size, every cell Empty with all fields zero, at
    /// generation 0.
    #[must_use]
    pub fn new(width: usize, height: usize) -> (grid: Grid)
        requires
            width <= i32::MAX,
            height <= i32::MAX,
            width * height <= usize::MAX,
        ensures
            grid.wf(),
            grid.width == width,
            grid.height == height,
            grid.generation == 0,
            grid.cells@.len() == width * height,
            forall|i: int| 0 <= i < grid.cells@.len() ==> grid.cells@[i] == Cell::of(Species::Empty),
    {
        Grid { width, height, cells: vec![Cell::empty(); width * height], generation: 0 }
    }

    #[must_use]
    pub fn in_bounds(&self, x: i32, y: i32) -> (inside: bool)
        ensures
            inside == self@.in_bounds(x as int, y as int),
    {
        x >= 0 && (x as usize) < self.width && y >= 0 && (y as usize) < self.height
    }

    /// Position of an in-bounds coordinate in the buffer.
    fn offset(&self, x: i32, y: i32) -> (i: usize)
        requires
            self.wf(),
            self@.in_bounds(x as int, y as int),
        ensures
            i == self@.index(x as int, y as int),
            i < self.cells@.len(),
    {
        let col: usize = x as usize;
        let row: usize = y as usize;
        let len: usize = self.cells.len();
        proof {
            lemma_index_in_range(self@, x as int, y as int);
            assert(row * self.width + col < self.width * self.height) by (nonlinear_arith)
                requires
                    0 <= col < self.width,
                    0 <= row < self.height,
            ;
            assert(0 <= row * self.width) by (nonlinear_arith)
                requires
                    0 <= row,
                    0 <= self.width,
            ;
        }
        row * self.width + col
    }

    /// The cell at `(x, y)`, or a Wall cell outside the grid.
    #[must_use]
    pub fn get(&self, x: i32, y: i32) -> (cell: Cell)
        requires
            self.wf(),
        ensures
            cell == self@.get(x as int, y as int),
            !self@.in_bounds(x as int, y as int) ==> cell == Cell::of(Species::Wall),
    {
        if self.in_bounds(x, y) {
            let i: usize = self.offset(x, y);
            self.cells[i]
        } else {
            Cell::new(Species::Wall)
        }
    }

    /// Writes `cell` at `(x, y)`; outside the grid nothing changes.
    pub fn set(&mut self, x: i32, y: i32, cell: Cell)
        requires
            old(self).wf(),
        ensures
            final(self).wf(),
            final(self)@ == old(self)@.set(x as int, y as int, cell),
            old(self)@.in_bounds(x as int, y as int) ==> final(self)@.get(x as int, y as int)
                == cell,
            !old(self)@.in_bounds(x as int, y as int) ==> *final(self) == *old(self),
    {
        proof {
            lemma_set_get(self@, x as int, y as int, cell, x as int, y as int);
        }
        if self.in_bounds(x, y) {
            let i: usize = self.offset(x, y);
            self.cells[i] = cell;
        }
    }
}

} // verus!
