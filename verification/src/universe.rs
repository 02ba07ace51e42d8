//! The host-facing wrapper around the grid: cell painting, cursor tracking
//! and the byte buffers that the renderer reads after each tick.

use vstd::prelude::*;
use crate::cell::{Cell, Species};
use crate::eyes::eyes_spec;
use crate::grid::{Grid, GridView};
use crate::tick::tick_spec;

verus! {

/// A grid together with its render buffers.
///
/// Maintains a species-only byte buffer and a two-byte-per-cell buffer
/// (species, rb) that are synced after each `tick()`, suitable for direct
/// texture upload.
#[derive(Debug)]
pub struct Universe {
    pub grid: Grid,
    /// One byte per cell (species only), length = width × height.
    pub species_buffer: Vec<u8>,
    /// Two bytes per cell (species, rb), length = width × height × 2.
    /// Used by the shader for color variation (fire gradient, smoke fade).
    pub cell_render_buffer: Vec<u8>,
    /// Counter for specter group IDs (1–255, wraps past 0).
    pub next_ghost_group: u8,
    /// Cursor grid position for eye tracking. `None` = no cursor visible.
    pub cursor: Option<(i32, i32)>,
}

/// The colour seed of a grain of sand placed at `(x, y)`.
pub open spec fn sand_shade(x: usize, y: usize) -> u8 {
    (x.wrapping_mul(137) ^ y.wrapping_mul(269)).wrapping_add(x.wrapping_add(y)) as u8
}

/// The cell that the host places for species `s` at `(x, y)`: Sand gets a
/// colour seed, Fire and Smoke a lifetime and a drift seed, Water a flow
/// direction, all drawn from the position.
pub open spec fn seeded(s: Species, x: usize, y: usize) -> Cell {
    match s {
        Species::Sand => Cell { rb: sand_shade(x, y), ..Cell::of(s) },
        Species::Fire => Cell {
            ra: (x.wrapping_mul(7) ^ y.wrapping_mul(13)) as u8,
            rb: 20u8.wrapping_add(((x ^ y) % 30) as u8),
            ..Cell::of(s)
        },
        Species::Water => Cell { ra: (x ^ y) as u8, ..Cell::of(s) },
        Species::Smoke => Cell {
            ra: (x ^ y) as u8,
            rb: 80u8.wrapping_add(((x ^ y) % 120) as u8),
            ..Cell::of(s)
        },
        _ => Cell::of(s),
    }
}

/// The grid after the host has painted the species with the given code at
/// `(x, y)`. Nothing happens outside the grid or for an unknown code. Empty
/// always overwrites; any other species only fills an Empty cell.
pub open spec fn painted(g: GridView, x: usize, y: usize, code: u8) -> GridView {
    if x >= g.width || y >= g.height {
        g
    } else {
        match Species::from_code_spec(code) {
            None => g,
            Some(s) => if s != Species::Empty && g.get(x as int, y as int).species
                != Species::Empty {
                g
            } else {
                g.set(x as int, y as int, seeded(s, x, y))
            },
        }
    }
}

/// The grid after the host has placed a specter cell of `group` with role
/// byte `rb` at `(x, y)`: only an Empty cell inside the grid is filled.
pub open spec fn haunted(g: GridView, x: usize, y: usize, group: u8, rb: u8) -> GridView {
    if x >= g.width || y >= g.height || g.get(x as int, y as int).species != Species::Empty {
        g
    } else {
        g.set(x as int, y as int, Cell { species: Species::Specter, ra: group, rb, clock: 0 })
    }
}

/// The group id handed out after `id`: one higher, and 1 after 255, so
/// that 0 is never handed out again.
pub open spec fn next_group(id: u8) -> u8 {
    if id == 255 {
        1
    } else {
        (id + 1) as u8
    }
}

/// The grid after a tick of the universe: a tick of the grid, and then,
/// if any specter is on it, the placement of the eyes.
pub open spec fn universe_tick_spec(g: GridView, cursor: Option<(i32, i32)>) -> GridView {
    let ticked = tick_spec(g);
    if ticked.lacks(Species::Specter) {
        ticked
    } else {
        eyes_spec(ticked, cursor)
    }
}

impl Universe {
    /// The grid is well-formed and the buffers have one and two bytes per
    /// cell.
    pub open spec fn wf(&self) -> bool {
        &&& self.grid.wf()
        &&& self.species_buffer@.len() == self.grid.cells@.len()
        &&& self.cell_render_buffer@.len() == 2 * self.grid.cells@.len()
    }

    /// The buffers hold, byte for byte, the species code of every cell, and
    /// the render buffer its `rb` beside it.
    pub open spec fn in_sync(&self) -> bool {
        forall|i: int| 0 <= i < self.grid.cells@.len() ==> #[trigger] self.synced_at(i)
    }

    /// The buffers hold the species code of cell `i`, and the render buffer
    /// its `rb` beside it.
    pub open spec fn synced_at(&self, i: int) -> bool {
        &&& self.species_buffer@[i] == self.grid.cells@[i].species.code_spec()
        &&& self.cell_render_buffer@[2 * i] == self.grid.cells@[i].species.code_spec()
        &&& self.cell_render_buffer@[2 * i + 1] == self.grid.cells@[i].rb
    }

    /// Create a new universe with the given dimensions, all cells empty.
    #[must_use]
    pub fn new(width: usize, height: usize) -> (universe: Universe)
        requires
            width <= i32::MAX,
            height <= i32::MAX,
            width * height * 2 <= usize::MAX,
        ensures
            universe.wf(),
            universe.in_sync(),
            universe.grid.width == width,
            universe.grid.height == height,
            universe.grid.generation == 0,
            forall|i: int|
                0 <= i < universe.grid.cells@.len() ==> universe.grid.cells@[i] == Cell::of(
                    Species::Empty,
                ),
            universe.next_ghost_group == 1,
            universe.cursor is None,
    {
        assert(width * height <= width * height * 2) by (nonlinear_arith)
            requires
                0 <= width,
                0 <= height,
        ;
        let grid = Grid::new(width, height);
        let species_buffer = vec![Species::Empty.code(); width * height];
        let cell_render_buffer = vec![0u8; width * height * 2];
        Universe { grid, species_buffer, cell_render_buffer, next_ghost_group: 1, cursor: None }
    }

    /// Advance the simulation by one tick and sync the render buffer.
    pub fn tick(&mut self)
        requires
            old(self).wf(),
        ensures
            final(self).wf(),
            final(self).in_sync(),
            final(self).grid@ == universe_tick_spec(old(self).grid@, old(self).cursor),
            final(self).grid.width == old(self).grid.width,
            final(self).grid.height == old(self).grid.height,
            final(self).grid.generation == (old(self).grid.generation + 1) % 256,
            final(self).next_ghost_group == old(self).next_ghost_group,
            final(self).cursor == old(self).cursor,
    {
        self.grid.tick();
        // Only run eye tracking when specters exist.
        if self.grid.has_ghosts() {
            self.grid.update_ghost_eyes(self.cursor);
        }
        self.sync_render_buffers();
    }

    /// Set the cursor grid position for eye tracking.
    pub fn set_cursor(&mut self, x: i32, y: i32)
        ensures
            final(self).cursor == Some((x, y)),
            final(self).grid == old(self).grid,
            final(self).species_buffer == old(self).species_buffer,
            final(self).cell_render_buffer == old(self).cell_render_buffer,
            final(self).next_ghost_group == old(self).next_ghost_group,
    {
        self.cursor = Some((x, y));
    }

    /// Clear the cursor (eyes rest in the middle of their zones).
    pub fn clear_cursor(&mut self)
        ensures
            final(self).cursor is None,
            final(self).grid == old(self).grid,
            final(self).species_buffer == old(self).species_buffer,
            final(self).cell_render_buffer == old(self).cell_render_buffer,
            final(self).next_ghost_group == old(self).next_ghost_group,
    {
        self.cursor = None;
    }

    /// Paint a cell at `(x, y)` with the given species value.
    ///
    /// Non-empty elements only fill empty cells (no overwriting existing
    /// material). The eraser (species 0 / Empty) always overwrites.
    /// Out-of-bounds coordinates are silently ignored.
    pub fn set_cell(&mut self, x: usize, y: usize, species: u8)
        requires
            old(self).wf(),
        ensures
            final(self).wf(),
            final(self).grid@ == painted(old(self).grid@, x, y, species),
            final(self).species_buffer == old(self).species_buffer,
            final(self).cell_render_buffer == old(self).cell_render_buffer,
            final(self).next_ghost_group == old(self).next_ghost_group,
            final(self).cursor == old(self).cursor,
    {
        if x >= self.grid.width || y >= self.grid.height {
            return;
        }
        let s = match Species::from_code(species) {
            Some(s) => s,
            None => {
                return;
            },  // unknown species — ignore
        };

        // Eraser (Empty) always overwrites; other elements only fill empty cells.
        if s != Species::Empty && self.grid.get(x as i32, y as i32).species != Species::Empty {
            return;
        }
        let mut cell = Cell::new(s);
        // Sand uses rb for per-grain color variation (0–255).
        if s == Species::Sand {
            cell.rb = #[verifier::truncate]
            ((x.wrapping_mul(137) ^ y.wrapping_mul(269)).wrapping_add(x.wrapping_add(y)) as u8);
        }
        // Fire starts with a lifetime counter so it doesn't vanish instantly.

        if s == Species::Fire {
            // Randomize lifetime using position as cheap entropy.
            cell.rb = 20_u8.wrapping_add(((x ^ y) % 30) as u8);
            cell.ra = #[verifier::truncate]
            ((x.wrapping_mul(7) ^ y.wrapping_mul(13)) as u8);
        }
        // Water uses ra parity as persistent flow direction. Seed from
        // position so adjacent particles start with varied directions.

        if s == Species::Water {
            cell.ra = #[verifier::truncate]
            ((x ^ y) as u8);
        }
        // Smoke starts with a lifetime for fade-out.

        if s == Species::Smoke {
            cell.rb = 80_u8.wrapping_add(((x ^ y) % 120) as u8);
            cell.ra = #[verifier::truncate]
            ((x ^ y) as u8);
        }
        self.grid.set(x as i32, y as i32, cell);
    }

    /// Allocate a new specter group ID (1–255, wraps past 0).
    pub fn alloc_ghost_group(&mut self) -> (id: u8)
        ensures
            id == old(self).next_ghost_group,
            final(self).next_ghost_group == next_group(old(self).next_ghost_group),
            final(self).grid == old(self).grid,
            final(self).species_buffer == old(self).species_buffer,
            final(self).cell_render_buffer == old(self).cell_render_buffer,
            final(self).cursor == old(self).cursor,
    {
        let id = self.next_ghost_group;
        self.next_ghost_group = self.next_ghost_group.wrapping_add(1);
        // Skip 0 so group 0 is never used (reserve for "no group").
        if self.next_ghost_group == 0 {
            self.next_ghost_group = 1;
        }
        id
    }

    /// Place a specter cell with a specific group ID stored in `ra`.
    /// The `rb` field encodes the cell's visual role (body/eye zone/eye).
    /// Only fills empty cells — existing material is not overwritten.
    pub fn set_ghost(&mut self, x: usize, y: usize, group: u8, rb: u8)
        requires
            old(self).wf(),
        ensures
            final(self).wf(),
            final(self).grid@ == haunted(old(self).grid@, x, y, group, rb),
            final(self).species_buffer == old(self).species_buffer,
            final(self).cell_render_buffer == old(self).cell_render_buffer,
            final(self).next_ghost_group == old(self).next_ghost_group,
            final(self).cursor == old(self).cursor,
    {
        if x >= self.grid.width || y >= self.grid.height {
            return;
        }
        if self.grid.get(x as i32, y as i32).species != Species::Empty {
            return;
        }
        let mut cell = Cell::new(Species::Specter);
        cell.ra = group;
        cell.rb = rb;
        self.grid.set(x as i32, y as i32, cell);
    }

    /// The species-only byte buffer; the host uploads it as a texture.
    #[must_use]
    pub fn species_ptr(&self) -> (buffer: &Vec<u8>)
        ensures
            buffer@ == self.species_buffer@,
    {
        &self.species_buffer
    }

    /// The 2-byte-per-cell render buffer (species, rb).
    ///
    /// Layout: `[species_0, rb_0, species_1, rb_1, ...]`
    /// Length: `width × height × 2` bytes.
    #[must_use]
    pub fn cell_render_ptr(&self) -> (buffer: &Vec<u8>)
        ensures
            buffer@ == self.cell_render_buffer@,
    {
        &self.cell_render_buffer
    }

    #[must_use]
    pub fn width(&self) -> (width: usize)
        ensures
            width == self.grid.width,
    {
        self.grid.width
    }

    #[must_use]
    pub fn height(&self) -> (height: usize)
        ensures
            height == self.grid.height,
    {
        self.grid.height
    }

    /// Sync both species buffer and cell render buffer in a single pass.
    pub fn sync_render_buffers(&mut self)
        requires
            old(self).wf(),
        ensures
            final(self).wf(),
            final(self).in_sync(),
            final(self).grid == old(self).grid,
            final(self).next_ghost_group == old(self).next_ghost_group,
            final(self).cursor == old(self).cursor,
    {
        let mut i: usize = 0;
        while i < self.grid.cells.len()
            invariant
                self.wf(),
                self.grid == old(self).grid,
                self.next_ghost_group == old(self).next_ghost_group,
                self.cursor == old(self).cursor,
                0 <= i <= self.grid.cells@.len(),
                forall|j: int| 0 <= j < i ==> #[trigger] self.synced_at(j),
            decreases self.grid.cells@.len() - i,
        {
            let cell = self.grid.cells[i];
            let sp = cell.species.code();
            let doubled: usize = self.cell_render_buffer.len();
            assert(i * 2 + 1 < doubled);
            let ghost before = *self;
            self.species_buffer[i] = sp;
            self.cell_render_buffer[i * 2] = sp;
            self.cell_render_buffer[i * 2 + 1] = cell.rb;
            proof {
                assert forall|j: int| 0 <= j < i + 1 implies #[trigger] self.synced_at(j) by {
                    if j < i {
                        assert(before.synced_at(j));
                    }
                }
            }
            i = i + 1;
        }
    }
}

} // verus!
