//! Fire element: rises steadily like a candle flame, spawns smoke on death.
//!
//! `rb` is the lifetime counter (higher = younger fire). The shader maps
//! `rb` to a color gradient: dark red → red → orange → yellow.
//! `ra` stores a per-particle random seed for slight flicker.
//!
//! Fire strongly prefers rising straight up, with only occasional tiny
//! lateral flicker — producing a steady, even column from the source.

use vstd::prelude::*;
use crate::api::SandApi;
use crate::cell::{Cell, Species};
use crate::elements::parity_dir;
use crate::grid::{lemma_put_shape, lemma_relocate_shape, GridView};

verus! {

/// Default lifetime when fire is placed by the player.
pub const DEFAULT_FIRE_LIFETIME: u8 = 120;

/// Smoke lifetime range: long enough for the turbulent phase to develop swirls.
pub const SMOKE_LIFETIME_MIN: u8 = 80;

pub const SMOKE_LIFETIME_RANGE: u8 = 120;

/// Fire at or below this `rb` has a chance to convert to smoke each tick,
/// spreading the fire→smoke transition over several frames instead of
/// a hard cutoff: the lower the lifetime, the more often the roll is a
/// multiple of it, and at lifetime 1 it always is. At lifetime 0 the fire
/// converts whatever the roll.
pub const FADE_THRESHOLD: u8 = 10;

/// The per-tick roll of a fire cell, from the generation and its seed.
pub open spec fn fire_roll(me: Cell, generation: u8) -> u8 {
    generation.wrapping_add(me.ra).wrapping_mul(3)
}

/// Fire dies at lifetime zero, and at or below `FADE_THRESHOLD` whenever
/// its roll is a multiple of the remaining lifetime.
pub open spec fn fire_expires(me: Cell, generation: u8) -> bool {
    me.rb == 0 || (me.rb <= FADE_THRESHOLD && fire_roll(me, generation) % me.rb == 0)
}

/// A fresh smoke cell with drift seed `seed`, its lifetime drawn from the
/// generation and the seed.
pub open spec fn smoke_from(seed: u8, generation: u8) -> Cell {
    Cell {
        species: Species::Smoke,
        ra: seed,
        rb: SMOKE_LIFETIME_MIN.wrapping_add(generation.wrapping_mul(seed) % SMOKE_LIFETIME_RANGE),
        clock: 0,
    }
}

/// The seed of the extra smoke spawned at column offset `dx`: the fire's
/// seed shifted by `dx`, wrapping.
pub open spec fn plume_seed(seed: u8, dx: int) -> u8 {
    if dx < 0 {
        seed.wrapping_add(255)
    } else if dx == 0 {
        seed
    } else {
        seed.wrapping_add(1)
    }
}

/// Extra smoke is spawned one row up at column offset `dx` if that cell is
/// Empty.
pub open spec fn spawn_plume(
    g: GridView,
    x: int,
    y: int,
    generation: u8,
    seed: u8,
    dx: int,
) -> GridView {
    if g.get(x + dx, y - 1).species == Species::Empty {
        g.put(x + dx, y - 1, smoke_from(plume_seed(seed, dx), generation), generation)
    } else {
        g
    }
}

/// The dying fire at `(x, y)` turns into smoke and seeds smoke into the
/// Empty cells among its three upper neighbours, left to right.
pub open spec fn fire_expire(g: GridView, x: int, y: int, generation: u8) -> GridView {
    let seed = g.get(x, y).ra;
    let g0 = g.put(x, y, smoke_from(seed, generation), generation);
    let g1 = spawn_plume(g0, x, y, generation, seed, -1);
    let g2 = spawn_plume(g1, x, y, generation, seed, 0);
    spawn_plume(g2, x, y, generation, seed, 1)
}

/// The column offset of the cell one row up that living fire at `(x, y)`
/// rises into, if any: straight up; on a flicker roll the diagonal on the
/// side of its seed; then the two diagonals, left first on even
/// generations and right first on odd ones.
pub open spec fn fire_target(g: GridView, x: int, y: int, generation: u8) -> Option<int> {
    let me = g.get(x, y);
    let flick = parity_dir(me.ra);
    let first: int = if generation % 2 == 0 { -1 } else { 1 };
    if g.get(x, y - 1).species == Species::Empty {
        Some(0)
    } else if fire_roll(me, generation) % 6 == 0 && g.get(x + flick, y - 1).species
        == Species::Empty {
        Some(flick)
    } else if g.get(x + first, y - 1).species == Species::Empty {
        Some(first)
    } else if g.get(x - first, y - 1).species == Species::Empty {
        Some(-first)
    } else {
        None
    }
}

/// The cell one tick older: its lifetime `rb` one lower, not below zero.
pub open spec fn aged(me: Cell) -> Cell {
    Cell { rb: me.rb.saturating_sub(1), ..me }
}

/// The grid after the fire rule has acted at `(x, y)`.
pub open spec fn fire_step(g: GridView, x: int, y: int, generation: u8) -> GridView {
    let me = g.get(x, y);
    if fire_expires(me, generation) {
        fire_expire(g, x, y, generation)
    } else {
        match fire_target(g, x, y, generation) {
            Some(dx) => g.relocate(x, y, x + dx, y - 1, aged(me), generation),
            None => g.put(x, y, aged(me), generation),
        }
    }
}

/// The fire rule keeps the grid's shape.
pub proof fn lemma_fire_step_shape(g: GridView, x: int, y: int, generation: u8)
    requires
        g.wf(),
    ensures
        fire_step(g, x, y, generation).wf(),
        fire_step(g, x, y, generation).same_shape(g),
{
    let me = g.get(x, y);
    if fire_expires(me, generation) {
        let seed = me.ra;
        let g0 = g.put(x, y, smoke_from(seed, generation), generation);
        lemma_put_shape(g, x, y, smoke_from(seed, generation), generation);
        let g1 = spawn_plume(g0, x, y, generation, seed, -1);
        lemma_put_shape(g0, x - 1, y - 1, smoke_from(plume_seed(seed, -1), generation), generation);
        let g2 = spawn_plume(g1, x, y, generation, seed, 0);
        lemma_put_shape(g1, x + 0, y - 1, smoke_from(plume_seed(seed, 0), generation), generation);
        lemma_put_shape(g2, x + 1, y - 1, smoke_from(plume_seed(seed, 1), generation), generation);
    } else {
        match fire_target(g, x, y, generation) {
            Some(dx) => lemma_relocate_shape(g, x, y, x + dx, y - 1, aged(me), generation),
            None => lemma_put_shape(g, x, y, aged(me), generation),
        }
    }
}

/// Spawn extra smoke into the upper neighbour at column offset `dx` if it
/// is Empty.
fn spawn_smoke(api: &mut SandApi, seed: u8, dx: i32)
    requires
        old(api).wf(),
        -1 <= dx <= 1,
    ensures
        final(api).wf(),
        final(api).bound_as(old(api)),
        *final(final(api).grid) == *final(old(api).grid),
        final(api).board() == spawn_plume(
            old(api).board(),
            old(api).x as int,
            old(api).y as int,
            old(api).generation,
            seed,
            dx as int,
        ),
{
    let neighbor = api.get(dx, -1);
    if neighbor.species == Species::Empty {
        let shifted: u8 = if dx < 0 {
            seed.wrapping_add(255)
        } else if dx == 0 {
            seed
        } else {
            seed.wrapping_add(1)
        };
        let mut extra = Cell::new(Species::Smoke);
        extra.rb = SMOKE_LIFETIME_MIN.wrapping_add(
            api.generation.wrapping_mul(shifted) % SMOKE_LIFETIME_RANGE,
        );
        extra.ra = shifted;
        api.set(dx, -1, extra);
    }
}

pub fn update_fire(api: &mut SandApi)
    requires
        old(api).wf(),
    ensures
        final(api).wf(),
        final(api).bound_as(old(api)),
        *final(final(api).grid) == *final(old(api).grid),
        final(api).board() == fire_step(
            old(api).board(),
            old(api).x as int,
            old(api).y as int,
            old(api).generation,
        ),
{
    let me = api.get(0, 0);

    // Fading death: when rb is low, each tick has an increasing chance to
    // convert to smoke.
    let should_die = me.rb == 0 || (me.rb <= FADE_THRESHOLD && api.generation.wrapping_add(
        me.ra,
    ).wrapping_mul(3) % me.rb == 0);

    if should_die {
        let mut smoke = Cell::new(Species::Smoke);
        smoke.rb = SMOKE_LIFETIME_MIN.wrapping_add(
            api.generation.wrapping_mul(me.ra) % SMOKE_LIFETIME_RANGE,
        );
        smoke.ra = me.ra;
        api.set(0, 0, smoke);

        // Spawn extra smoke into empty neighbors above for denser plumes.
        spawn_smoke(api, me.ra, -1);
        spawn_smoke(api, me.ra, 0);
        spawn_smoke(api, me.ra, 1);
        return;
    }
    let mut updated = me;
    updated.rb = me.rb.saturating_sub(1);

    let gen = api.generation;

    // Primary: rise straight up — steady candle flame.
    let above = api.get(0, -1);
    if above.species == Species::Empty {
        api.set(0, 0, Cell::empty());
        api.set(0, -1, updated);
        return;
    }
    // Slight flicker: only ~1-in-6 ticks try a diagonal, keeps the flame tight.

    let flicker = gen.wrapping_add(me.ra).wrapping_mul(3) % 6 == 0;
    if flicker {
        let dx: i32 = if me.ra % 2 == 0 {
            -1
        } else {
            1
        };
        let diag = api.get(dx, -1);
        if diag.species == Species::Empty {
            api.set(0, 0, Cell::empty());
            api.set(dx, -1, updated);
            return;
        }
    }
    // Blocked straight up and no flicker — try diagonals as fallback.

    let (dx1, dx2): (i32, i32) = if gen % 2 == 0 {
        (-1, 1)
    } else {
        (1, -1)
    };
    let diag1 = api.get(dx1, -1);
    if diag1.species == Species::Empty {
        api.set(0, 0, Cell::empty());
        api.set(dx1, -1, updated);
        return;
    }
    let diag2 = api.get(dx2, -1);
    if diag2.species == Species::Empty {
        api.set(0, 0, Cell::empty());
        api.set(dx2, -1, updated);
        return;
    }
    // Can't move — age in place.

    api.set(0, 0, updated);
}

} // verus!
