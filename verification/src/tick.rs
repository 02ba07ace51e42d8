//! The per-tick scheduler: one pass over the grid per generation.

use vstd::prelude::*;
use crate::api::SandApi;
use crate::cell::Species;
use crate::census::lemma_census_counts;
use crate::elements::fire::lemma_fire_step_shape;
use crate::elements::ghost::MOVE_DIVISOR;
use crate::elements::sand::{lemma_sand_step_census, lemma_sand_step_shape};
use crate::elements::smoke::lemma_smoke_step_shape;
use crate::elements::water::{lemma_water_step_census, lemma_water_step_shape};
use crate::elements::{rule_step, update_cell};
use crate::grid::{lemma_index_in_range, Grid, GridView};
use crate::mover::{groups_moved, lemma_translate_get, move_group, move_groups};

verus! {

impl GridView {
    /// Every cell is Empty, Wall or already stamped with `generation`: a
    /// scan for that generation finds no cell to update.
    pub open spec fn is_at_rest(self, generation: u8) -> bool {
        forall|i: int|
            0 <= i < self.cells.len() ==> (#[trigger] self.cells[i]).species.is_immobile()
                || self.cells[i].clock == generation
    }

    /// Every cell is Empty or Wall.
    pub open spec fn is_inert(self) -> bool {
        forall|i: int| 0 <= i < self.cells.len() ==> (#[trigger] self.cells[i]).species.is_immobile()
    }
}

/// The grid after the scan has visited `(x, y)`: a cell that is Empty or
/// Wall, or that was already written in this generation, is skipped; any
/// other is handed to the rule of its species.
pub open spec fn cell_step(g: GridView, x: int, y: int, generation: u8) -> GridView {
    let cell = g.get(x, y);
    if cell.species.is_immobile() || cell.clock == generation {
        g
    } else {
        rule_step(cell.species, g, x, y, generation)
    }
}

/// The column visited as the `k`-th of a row: left to right on even
/// generations, right to left on odd ones.
pub open spec fn scan_col(width: int, generation: u8, k: int) -> int {
    if generation % 2 == 0 {
        k
    } else {
        width - 1 - k
    }
}

/// The grid after the scan has visited the first `n` cells of row `y`.
pub open spec fn scan_row(g: GridView, y: int, generation: u8, n: nat) -> GridView
    decreases n,
{
    if n == 0 {
        g
    } else {
        cell_step(
            scan_row(g, y, generation, (n - 1) as nat),
            scan_col(g.width, generation, n - 1),
            y,
            generation,
        )
    }
}

/// The grid after the scan has visited the lowest `rows` rows, bottom row
/// first.
pub open spec fn scan_rows(g: GridView, generation: u8, rows: nat) -> GridView
    decreases rows,
{
    if rows == 0 {
        g
    } else {
        scan_row(
            scan_rows(g, generation, (rows - 1) as nat),
            g.height - rows,
            generation,
            g.width as nat,
        )
    }
}

/// The grid with its generation advanced by one, wrapping at 256.
pub open spec fn advanced(g: GridView) -> GridView {
    GridView { generation: g.generation.wrapping_add(1), ..g }
}

/// The grid one tick later: the generation advances, the specter groups
/// move if there are any, and the scan visits every cell once, from the
/// bottom row to the top.
pub open spec fn tick_spec(g: GridView) -> GridView {
    let g1 = advanced(g);
    let g2 = if g1.lacks(Species::Specter) {
        g1
    } else {
        groups_moved(g1, g1.generation)
    };
    scan_rows(g2, g1.generation, g.height as nat)
}

/// A rule keeps the grid's shape.
pub proof fn lemma_rule_step_shape(species: Species, g: GridView, x: int, y: int, generation: u8)
    requires
        g.wf(),
    ensures
        rule_step(species, g, x, y, generation).wf(),
        rule_step(species, g, x, y, generation).same_shape(g),
{
    match species {
        Species::Sand => lemma_sand_step_shape(g, x, y, generation),
        Species::Water => lemma_water_step_shape(g, x, y, generation),
        Species::Fire => lemma_fire_step_shape(g, x, y, generation),
        Species::Smoke => lemma_smoke_step_shape(g, x, y, generation),
        Species::Specter | Species::Empty | Species::Wall => {},
    }
}

/// A visit of the scan keeps the grid's shape.
pub proof fn lemma_cell_step_shape(g: GridView, x: int, y: int, generation: u8)
    requires
        g.wf(),
    ensures
        cell_step(g, x, y, generation).wf(),
        cell_step(g, x, y, generation).same_shape(g),
{
    lemma_rule_step_shape(g.get(x, y).species, g, x, y, generation);
}

/// The scan of a row keeps the grid's shape.
pub proof fn lemma_scan_row_shape(g: GridView, y: int, generation: u8, n: nat)
    requires
        g.wf(),
    ensures
        scan_row(g, y, generation, n).wf(),
        scan_row(g, y, generation, n).same_shape(g),
    decreases n,
{
    if n > 0 {
        lemma_scan_row_shape(g, y, generation, (n - 1) as nat);
        lemma_cell_step_shape(
            scan_row(g, y, generation, (n - 1) as nat),
            scan_col(g.width, generation, n - 1),
            y,
            generation,
        );
    }
}

/// The scan of the grid keeps its shape.
pub proof fn lemma_scan_rows_shape(g: GridView, generation: u8, rows: nat)
    requires
        g.wf(),
    ensures
        scan_rows(g, generation, rows).wf(),
        scan_rows(g, generation, rows).same_shape(g),
    decreases rows,
{
    if rows > 0 {
        lemma_scan_rows_shape(g, generation, (rows - 1) as nat);
        lemma_scan_row_shape(
            scan_rows(g, generation, (rows - 1) as nat),
            g.height - rows,
            generation,
            g.width as nat,
        );
    }
}

/// The move of the groups with an id below `n` keeps the grid's shape.
pub proof fn lemma_move_groups_shape(g: GridView, generation: u8, n: nat)
    requires
        g.wf(),
    ensures
        move_groups(g, generation, n).wf(),
        move_groups(g, generation, n).same_shape(g),
    decreases n,
{
    if n > 0 {
        lemma_move_groups_shape(g, generation, (n - 1) as nat);
        let before = move_groups(g, generation, (n - 1) as nat);
        let id = (n - 1) as u8;
        let d = crate::elements::ghost::group_direction(generation, id);
        lemma_translate_get(before, id, d.0, d.1, generation, 0, 0);
    }
}

/// A tick keeps the grid's shape and advances its generation by one,
/// wrapping at 256.
pub proof fn lemma_tick_shape(g: GridView)
    requires
        g.wf(),
    ensures
        tick_spec(g).wf(),
        tick_spec(g).width == g.width,
        tick_spec(g).height == g.height,
        tick_spec(g).generation == (g.generation + 1) % 256,
{
    let g1 = advanced(g);
    let g2 = if g1.lacks(Species::Specter) {
        g1
    } else {
        groups_moved(g1, g1.generation)
    };
    lemma_move_groups_shape(g1, g1.generation, 256);
    lemma_scan_rows_shape(g2, g1.generation, g.height as nat);
}

/// A visit changes nothing on a grid that is at rest.
pub proof fn lemma_cell_step_at_rest(g: GridView, x: int, y: int, generation: u8)
    requires
        g.wf(),
        g.is_at_rest(generation),
    ensures
        cell_step(g, x, y, generation) == g,
{
    if g.in_bounds(x, y) {
        lemma_index_in_range(g, x, y);
        assert(g.cells[g.index(x, y)] == g.get(x, y));
    }
}

/// The scan of a row changes nothing on a grid that is at rest.
pub proof fn lemma_scan_row_at_rest(g: GridView, y: int, generation: u8, n: nat)
    requires
        g.wf(),
        g.is_at_rest(generation),
    ensures
        scan_row(g, y, generation, n) == g,
    decreases n,
{
    if n > 0 {
        lemma_scan_row_at_rest(g, y, generation, (n - 1) as nat);
        lemma_cell_step_at_rest(g, scan_col(g.width, generation, n - 1), y, generation);
    }
}

/// The scan changes nothing on a grid that is at rest.
pub proof fn lemma_scan_rows_at_rest(g: GridView, generation: u8, rows: nat)
    requires
        g.wf(),
        g.is_at_rest(generation),
    ensures
        scan_rows(g, generation, rows) == g,
    decreases rows,
{
    if rows > 0 {
        lemma_scan_rows_at_rest(g, generation, (rows - 1) as nat);
        lemma_scan_row_at_rest(g, g.height - rows, generation, g.width as nat);
    }
}

/// Without Fire and Smoke a visit keeps the count of every species: Sand
/// and Water only exchange places.
pub proof fn lemma_cell_step_census(g: GridView, x: int, y: int, generation: u8)
    requires
        g.wf(),
        g.lacks(Species::Fire),
        g.lacks(Species::Smoke),
    ensures
        cell_step(g, x, y, generation).census() == g.census(),
        cell_step(g, x, y, generation).lacks(Species::Fire),
        cell_step(g, x, y, generation).lacks(Species::Smoke),
{
    let cell = g.get(x, y);
    if g.in_bounds(x, y) {
        lemma_index_in_range(g, x, y);
        assert(g.cells[g.index(x, y)] == cell);
    }
    if !(cell.species.is_immobile() || cell.clock == generation) {
        match cell.species {
            Species::Sand => lemma_sand_step_census(g, x, y, generation),
            Species::Water => lemma_water_step_census(g, x, y, generation),
            _ => {},
        }
    }
    lemma_census_counts(g, Species::Fire);
    lemma_census_counts(g, Species::Smoke);
    lemma_census_counts(cell_step(g, x, y, generation), Species::Fire);
    lemma_census_counts(cell_step(g, x, y, generation), Species::Smoke);
}

/// Without Fire and Smoke the scan of a row keeps the count of every
/// species.
pub proof fn lemma_scan_row_census(g: GridView, y: int, generation: u8, n: nat)
    requires
        g.wf(),
        g.lacks(Species::Fire),
        g.lacks(Species::Smoke),
    ensures
        scan_row(g, y, generation, n).census() == g.census(),
        scan_row(g, y, generation, n).lacks(Species::Fire),
        scan_row(g, y, generation, n).lacks(Species::Smoke),
    decreases n,
{
    if n > 0 {
        lemma_scan_row_census(g, y, generation, (n - 1) as nat);
        lemma_scan_row_shape(g, y, generation, (n - 1) as nat);
        lemma_cell_step_census(
            scan_row(g, y, generation, (n - 1) as nat),
            scan_col(g.width, generation, n - 1),
            y,
            generation,
        );
    }
}

/// Without Fire and Smoke the scan keeps the count of every species.
pub proof fn lemma_scan_rows_census(g: GridView, generation: u8, rows: nat)
    requires
        g.wf(),
        g.lacks(Species::Fire),
        g.lacks(Species::Smoke),
    ensures
        scan_rows(g, generation, rows).census() == g.census(),
        scan_rows(g, generation, rows).lacks(Species::Fire),
        scan_rows(g, generation, rows).lacks(Species::Smoke),
    decreases rows,
{
    if rows > 0 {
        lemma_scan_rows_census(g, generation, (rows - 1) as nat);
        lemma_scan_rows_shape(g, generation, (rows - 1) as nat);
        lemma_scan_row_census(
            scan_rows(g, generation, (rows - 1) as nat),
            g.height - rows,
            generation,
            g.width as nat,
        );
    }
}

impl Grid {
    /// Process a single cell during the tick scan.
    pub fn update_cell_at(&mut self, x: i32, y: i32, gen: u8)
        requires
            old(self).wf(),
        ensures
            final(self).wf(),
            final(self)@ == cell_step(old(self)@, x as int, y as int, gen),
            final(self)@.same_shape(old(self)@),
    {
        proof {
            lemma_cell_step_shape(self@, x as int, y as int, gen);
        }
        let cell = self.get(x, y);
        if cell.species == Species::Empty || cell.species == Species::Wall {
            return;
        }
        if cell.clock == gen {
            return;
        }
        let species = cell.species;
        let mut sand_api = SandApi::new(self, x, y, gen);
        update_cell(species, &mut sand_api);
    }

    /// Scan one row: left to right on even generations, right to left on
    /// odd ones.
    fn scan_row_at(&mut self, y: i32, gen: u8)
        requires
            old(self).wf(),
        ensures
            final(self).wf(),
            final(self)@ == scan_row(old(self)@, y as int, gen, old(self).width as nat),
    {
        let ghost g = self@;
        let w: i32 = self.width as i32;
        let scan_right = gen.is_multiple_of(2);
        if scan_right {
            let mut x: i32 = 0;
            while x < w
                invariant
                    self.wf(),
                    g.wf(),
                    w == g.width,
                    gen % 2 == 0,
                    0 <= x <= w,
                    self@ == scan_row(g, y as int, gen, x as nat),
                decreases w - x,
            {
                self.update_cell_at(x, y, gen);
                x = x + 1;
            }
        } else {
            let mut x: i32 = w;
            while x > 0
                invariant
                    self.wf(),
                    g.wf(),
                    w == g.width,
                    gen % 2 != 0,
                    0 <= x <= w,
                    self@ == scan_row(g, y as int, gen, (w - x) as nat),
                decreases x,
            {
                x = x - 1;
                self.update_cell_at(x, y, gen);
            }
        }
    }

    /// Advance the simulation by one tick.
    ///
    /// Scans bottom-to-top, alternating horizontal direction each generation.
    /// Skips Empty/Wall cells and cells already updated this generation (clock == generation).
    pub fn tick(&mut self)
        requires
            old(self).wf(),
        ensures
            final(self).wf(),
            final(self)@ == tick_spec(old(self)@),
            final(self).width == old(self).width,
            final(self).height == old(self).height,
            final(self).generation == (old(self).generation + 1) % 256,
            old(self)@.is_inert() ==> final(self).cells@ == old(self).cells@,
            old(self)@.is_at_rest(final(self).generation) && (old(self)@.lacks(Species::Specter)
                || final(self).generation % MOVE_DIVISOR != 0)
                ==> final(self).cells@ == old(self).cells@,
            old(self)@.lacks(Species::Fire) && old(self)@.lacks(Species::Smoke)
                ==> final(self)@.census() == old(self)@.census(),
    {
        let ghost g0 = self@;
        self.generation = self.generation.wrapping_add(1);
        let gen = self.generation;
        let ghost g1 = self@;

        // Only do specter work if specters exist on the grid.
        if self.has_ghosts() {
            self.move_ghosts(gen);
        }
        let ghost g2 = self@;
        assert(g2.same_shape(g1) && g2.census() == g0.census());
        assert(self@ == scan_rows(g2, gen, 0));

        let h: i32 = self.height as i32;
        let mut y: i32 = h;
        while y > 0
            invariant
                self.wf(),
                g2.wf(),
                h == g2.height,
                0 <= y <= h,
                self@ == scan_rows(g2, gen, (h - y) as nat),
            decreases y,
        {
            y = y - 1;
            proof {
                lemma_scan_rows_shape(g2, gen, (h - y - 1) as nat);
            }
            self.scan_row_at(y, gen);
        }
        proof {
            lemma_tick_shape(g0);
            if g0.is_inert() {
                lemma_tick_inert(g0);
            }
            if g0.is_at_rest(gen) && (g0.lacks(Species::Specter) || gen % MOVE_DIVISOR != 0) {
                lemma_tick_at_rest(g0);
            }
            lemma_scan_census(g0, g2, gen, h as nat);
        }
    }
}

/// A tick changes no cell of a grid in which nothing is due to act: every
/// cell is Empty, Wall or already stamped with the generation that the tick
/// stamps, and no specter group is due to move.
pub proof fn lemma_tick_at_rest(g: GridView)
    requires
        g.wf(),
        g.is_at_rest(advanced(g).generation),
        g.lacks(Species::Specter) || advanced(g).generation % MOVE_DIVISOR != 0,
    ensures
        tick_spec(g).cells == g.cells,
{
    let g1 = advanced(g);
    assert(g1.is_at_rest(g1.generation));
    lemma_scan_rows_at_rest(g1, g1.generation, g.height as nat);
}

/// A tick changes no cell of a grid that holds only Empty and Wall.
pub proof fn lemma_tick_inert(g: GridView)
    requires
        g.wf(),
        g.is_inert(),
    ensures
        tick_spec(g).cells == g.cells,
{
    assert(g.is_at_rest(advanced(g).generation));
    assert(g.lacks(Species::Specter));
    lemma_tick_at_rest(g);
}

/// Without Fire and Smoke the scan keeps the count of every species that
/// the grid had before the groups moved, the move having kept it.
pub proof fn lemma_scan_census(before: GridView, moved: GridView, generation: u8, rows: nat)
    requires
        moved.wf(),
        moved.census() == before.census(),
    ensures
        before.lacks(Species::Fire) && before.lacks(Species::Smoke) ==> scan_rows(
            moved,
            generation,
            rows,
        ).census() == before.census(),
{
    if before.lacks(Species::Fire) && before.lacks(Species::Smoke) {
        lemma_census_counts(before, Species::Fire);
        lemma_census_counts(before, Species::Smoke);
        lemma_census_counts(moved, Species::Fire);
        lemma_census_counts(moved, Species::Smoke);
        lemma_scan_rows_census(moved, generation, rows);
    }
}

} // verus!
