//! The relative-offset access view through which element rules touch the grid.

use vstd::prelude::*;
use crate::cell::{Cell, Species};
use crate::grid::{Grid, GridView};

verus! {

/// A view of the grid bound to one cell's coordinates and to the current
/// generation. Reads and writes take offsets from the bound cell; every
/// write is stamped with the bound generation.
pub struct SandApi<'a> {
    pub grid: &'a mut Grid,
    pub x: i32,
    pub y: i32,
    pub generation: u8,
}

impl<'a> SandApi<'a> {
    /// The view is bound as `before` was: same cell, same generation.
    pub open spec fn bound_as(&self, before: &SandApi<'a>) -> bool {
        &&& self.x == before.x
        &&& self.y == before.y
        &&& self.generation == before.generation
    }

    /// The current value of the grid behind the view.
    pub open spec fn board(&self) -> GridView {
        self.grid@
    }

    /// The grid behind the view is well-formed.
    pub open spec fn wf(&self) -> bool {
        self.grid.wf()
    }

    /// Bind a view to the cell at `(x, y)` for the given generation.
    pub fn new(grid: &'a mut Grid, x: i32, y: i32, generation: u8) -> (api: Self)
        ensures
            api.x == x,
            api.y == y,
            api.generation == generation,
            *api.grid == *old(grid),
            *final(api.grid) == *final(grid),
    {
        SandApi { grid, x, y, generation }
    }

    /// Get cell at relative offset. Out-of-bounds returns Wall.
    pub fn get(&self, dx: i32, dy: i32) -> (cell: Cell)
        requires
            self.wf(),
        ensures
            cell == self.board().get(self.x + dx, self.y + dy),
    {
        match (self.x.checked_add(dx), self.y.checked_add(dy)) {
            (Some(tx), Some(ty)) => self.grid.get(tx, ty),
            _ => Cell::new(Species::Wall),
        }
    }

    /// Set cell at relative offset. Out-of-bounds is a no-op.
    /// Stamps the clock field with current generation.
    pub fn set(&mut self, dx: i32, dy: i32, cell: Cell)
        requires
            old(self).wf(),
        ensures
            final(self).wf(),
            final(self).bound_as(old(self)),
            *final(final(self).grid) == *final(old(self).grid),
            final(self).board() == old(self).board().put(
                old(self).x + dx,
                old(self).y + dy,
                cell,
                old(self).generation,
            ),
    {
        let mut stamped = cell;
        stamped.clock = self.generation;
        match (self.x.checked_add(dx), self.y.checked_add(dy)) {
            (Some(tx), Some(ty)) => self.grid.set(tx, ty, stamped),
            _ => {},
        }
    }
}

} // verus!
