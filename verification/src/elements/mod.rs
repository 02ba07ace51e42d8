//! Per-element update functions dispatched from the tick loop.

pub mod fire;
pub mod ghost;
pub mod sand;
pub mod smoke;
pub mod water;

use vstd::prelude::*;
use crate::api::SandApi;
use crate::cell::Species;
use crate::grid::{Grid, GridView};
use crate::tick::tick_spec;

verus! {

/// The grid after the rule of `species` has acted at `(x, y)`. Empty, Wall
/// and Specter cells have no rule of their own.
pub open spec fn rule_step(
    species: Species,
    g: GridView,
    x: int,
    y: int,
    generation: u8,
) -> GridView {
    match species {
        Species::Sand => sand::sand_step(g, x, y, generation),
        Species::Water => water::water_step(g, x, y, generation),
        Species::Fire => fire::fire_step(g, x, y, generation),
        Species::Smoke => smoke::smoke_step(g, x, y, generation),
        Species::Specter | Species::Empty | Species::Wall => g,
    }
}

/// Dispatch to the appropriate element update function.
///
/// Wall and Empty are no-ops and should be skipped before calling this.
pub fn update_cell(species: Species, api: &mut SandApi)
    requires
        old(api).wf(),
    ensures
        final(api).wf(),
        final(api).bound_as(old(api)),
        *final(final(api).grid) == *final(old(api).grid),
        final(api).board() == rule_step(
            species,
            old(api).board(),
            old(api).x as int,
            old(api).y as int,
            old(api).generation,
        ),
{
    match species {
        Species::Sand => sand::update_sand(api),
        Species::Water => water::update_water(api),
        Species::Fire => fire::update_fire(api),
        Species::Smoke => smoke::update_smoke(api),
        Species::Specter => ghost::update_ghost(api),
        Species::Empty | Species::Wall => {},
    }
}

/// The horizontal direction that the parity of a byte encodes: left for
/// even, right for odd.
pub open spec fn parity_dir(byte: u8) -> int {
    if byte % 2 == 0 {
        -1
    } else {
        1
    }
}

/// Advance the grid by one tick.
pub fn simulate_tick(grid: &mut Grid)
    requires
        old(grid).wf(),
    ensures
        final(grid).wf(),
        final(grid)@ == tick_spec(old(grid)@),
{
    grid.tick();
}

} // verus!
