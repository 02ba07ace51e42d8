//! Sand element: falls down, then diagonally; displaces Water by swapping.

use vstd::prelude::*;
use crate::api::SandApi;
use crate::cell::Species;
use crate::census::lemma_swap_into_census;
use crate::grid::{lemma_swap_into_get, lemma_swap_into_shape, GridView};

verus! {

/// Sand sinks into Empty and into Water.
pub open spec fn gives_way_to_sand(species: Species) -> bool {
    species == Species::Empty || species == Species::Water
}

/// The column offset of the cell one row down that the sand at `(x, y)`
/// moves into, if any: straight down first, then the two diagonals, left
/// first on even generations and right first on odd ones.
pub open spec fn sand_target(g: GridView, x: int, y: int, generation: u8) -> Option<int> {
    let first: int = if generation % 2 == 0 { -1 } else { 1 };
    if gives_way_to_sand(g.get(x, y + 1).species) {
        Some(0)
    } else if gives_way_to_sand(g.get(x + first, y + 1).species) {
        Some(first)
    } else if gives_way_to_sand(g.get(x - first, y + 1).species) {
        Some(-first)
    } else {
        None
    }
}

/// The grid after the sand rule has acted at `(x, y)`: the sand exchanges
/// places with its target, or stays where it is.
pub open spec fn sand_step(g: GridView, x: int, y: int, generation: u8) -> GridView {
    match sand_target(g, x, y, generation) {
        Some(dx) => g.swap_into(x, y, x + dx, y + 1, generation),
        None => g,
    }
}

/// The sand rule keeps the grid's shape.
pub proof fn lemma_sand_step_shape(g: GridView, x: int, y: int, generation: u8)
    requires
        g.wf(),
    ensures
        sand_step(g, x, y, generation).wf(),
        sand_step(g, x, y, generation).same_shape(g),
{
    match sand_target(g, x, y, generation) {
        Some(dx) => lemma_swap_into_shape(g, x, y, x + dx, y + 1, generation),
        None => {},
    }
}

/// Sand only ever exchanges places: the sand rule keeps the count of every
/// species.
pub proof fn lemma_sand_step_census(g: GridView, x: int, y: int, generation: u8)
    requires
        g.wf(),
        g.get(x, y).species == Species::Sand,
    ensures
        sand_step(g, x, y, generation).census() == g.census(),
{
    match sand_target(g, x, y, generation) {
        Some(dx) => lemma_swap_into_census(g, x, y, x + dx, y + 1, generation),
        None => {},
    }
}

/// Sand above an Empty cell falls exactly one row: the two cells exchange
/// places, both stamped, and no other cell changes.
pub proof fn lemma_sand_falls(g: GridView, x: int, y: int, generation: u8, x2: int, y2: int)
    requires
        g.wf(),
        g.in_bounds(x, y),
        g.in_bounds(x, y + 1),
        g.get(x, y + 1).species == Species::Empty,
    ensures
        sand_step(g, x, y, generation).get(x, y + 1) == g.get(x, y).stamped(generation),
        sand_step(g, x, y, generation).get(x, y) == g.get(x, y + 1).stamped(generation),
        (x2 != x || (y2 != y && y2 != y + 1)) ==> sand_step(g, x, y, generation).get(x2, y2)
            == g.get(x2, y2),
{
    lemma_swap_into_get(g, x, y, x, y + 1, generation, x2, y2);
    lemma_swap_into_get(g, x, y, x, y + 1, generation, x, y);
    lemma_swap_into_get(g, x, y, x, y + 1, generation, x, y + 1);
}

/// Sand directly above Water exchanges places with it: the denser cell
/// sinks, the lighter rises, and neither is lost.
pub proof fn lemma_sand_displaces_water(g: GridView, x: int, y: int, generation: u8)
    requires
        g.wf(),
        g.in_bounds(x, y),
        g.get(x, y + 1).species == Species::Water,
    ensures
        sand_step(g, x, y, generation).get(x, y + 1) == g.get(x, y).stamped(generation),
        sand_step(g, x, y, generation).get(x, y) == g.get(x, y + 1).stamped(generation),
{
    lemma_swap_into_get(g, x, y, x, y + 1, generation, x, y);
    lemma_swap_into_get(g, x, y, x, y + 1, generation, x, y + 1);
}

pub fn update_sand(api: &mut SandApi)
    requires
        old(api).wf(),
    ensures
        final(api).wf(),
        final(api).bound_as(old(api)),
        *final(final(api).grid) == *final(old(api).grid),
        final(api).board() == sand_step(
            old(api).board(),
            old(api).x as int,
            old(api).y as int,
            old(api).generation,
        ),
{
    let below = api.get(0, 1);
    if below.species == Species::Empty {
        // Fall straight down
        let me = api.get(0, 0);
        api.set(0, 0, below);
        api.set(0, 1, me);
        return;
    }
    if below.species == Species::Water {
        // Displace water by swapping (sand is denser)
        let me = api.get(0, 0);
        api.set(0, 0, below);
        api.set(0, 1, me);
        return;
    }
    // Try diagonal, alternating direction to reduce lateral bias

    let gen = api.generation;
    let (dx1, dx2): (i32, i32) = if gen.is_multiple_of(2) {
        (-1, 1)
    } else {
        (1, -1)
    };

    let diag1 = api.get(dx1, 1);
    if diag1.species == Species::Empty || diag1.species == Species::Water {
        let me = api.get(0, 0);
        api.set(0, 0, diag1);
        api.set(dx1, 1, me);
        return;
    }
    let diag2 = api.get(dx2, 1);
    if diag2.species == Species::Empty || diag2.species == Species::Water {
        let me = api.get(0, 0);
        api.set(0, 0, diag2);
        api.set(dx2, 1, me);
    }
}

} // verus!
