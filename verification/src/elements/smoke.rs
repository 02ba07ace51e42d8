//! Smoke element: candle-smoke two-phase behavior.
//!
//! **Laminar phase** (young, high `rb`): rises fast and straight.
//!
//! **Turbulent phase** (older, low `rb`): stalls heavily, drifts
//! randomly, and spreads out into a diffuse cloud.

use vstd::prelude::*;
use crate::api::SandApi;
use crate::cell::{Cell, Species};
use crate::elements::fire::aged;
use crate::elements::parity_dir;
use crate::grid::{lemma_put_shape, lemma_relocate_shape, GridView};

verus! {

/// `rb` at or below this → turbulent dispersal phase.
pub const TURBULENT_THRESHOLD: u8 = 120;

/// What a smoke cell does in one update.
pub enum SmokeMove {
    /// Lifetime is spent: the cell becomes Empty.
    Vanish,
    /// Age in place.
    Linger,
    /// Age in place and take a new drift seed.
    Reseed,
    /// Age and move into the Empty cell at offset `(dx, dy)`.
    Drift { dx: int, dy: int },
    /// Age and exchange with the older smoke directly above.
    Overtake,
    /// Age in place and turn round.
    Stuck,
}

/// The per-tick roll of a smoke cell, from the generation and its seed: a
/// number below ten.
pub open spec fn smoke_roll(me: Cell, generation: u8) -> u8 {
    generation.wrapping_add(me.ra).wrapping_mul(7) % 10
}

/// The move of young smoke: one time in ten it lingers, else it rises
/// straight up, else diagonally on the side of its seed, else on the other
/// side, else it lingers.
pub open spec fn laminar_move(g: GridView, x: int, y: int, generation: u8) -> SmokeMove {
    let me = g.get(x, y);
    let dir = parity_dir(me.ra);
    if smoke_roll(me, generation) < 1 {
        SmokeMove::Linger
    } else if g.get(x, y - 1).species == Species::Empty {
        SmokeMove::Drift { dx: 0, dy: -1 }
    } else if g.get(x + dir, y - 1).species == Species::Empty {
        SmokeMove::Drift { dx: dir, dy: -1 }
    } else if g.get(x - dir, y - 1).species == Species::Empty {
        SmokeMove::Drift { dx: -dir, dy: -1 }
    } else {
        SmokeMove::Linger
    }
}

/// The move of old smoke: six times in ten it stalls, taking a new seed
/// when the seed plus the generation is a multiple of five. Else it tries,
/// in order: the diagonal on the side of its seed, if the seed plus the
/// generation is a multiple of three; straight up; that diagonal; the other
/// diagonal; older smoke directly above; the neighbour on the side of its
/// seed. With nothing free it is stuck.
pub open spec fn turbulent_move(g: GridView, x: int, y: int, generation: u8) -> SmokeMove {
    let me = g.get(x, y);
    let dir = parity_dir(me.ra);
    let above = g.get(x, y - 1);
    if smoke_roll(me, generation) < 6 {
        if generation.wrapping_add(me.ra) % 5 == 0 {
            SmokeMove::Reseed
        } else {
            SmokeMove::Linger
        }
    } else if me.ra.wrapping_add(generation) % 3 == 0 && g.get(x + dir, y - 1).species
        == Species::Empty {
        SmokeMove::Drift { dx: dir, dy: -1 }
    } else if above.species == Species::Empty {
        SmokeMove::Drift { dx: 0, dy: -1 }
    } else if g.get(x + dir, y - 1).species == Species::Empty {
        SmokeMove::Drift { dx: dir, dy: -1 }
    } else if g.get(x - dir, y - 1).species == Species::Empty {
        SmokeMove::Drift { dx: -dir, dy: -1 }
    } else if above.species == Species::Smoke && above.rb < me.rb {
        SmokeMove::Overtake
    } else if g.get(x + dir, y).species == Species::Empty {
        SmokeMove::Drift { dx: dir, dy: 0 }
    } else {
        SmokeMove::Stuck
    }
}

/// The move that the smoke cell at `(x, y)` makes.
pub open spec fn smoke_move(g: GridView, x: int, y: int, generation: u8) -> SmokeMove {
    let me = g.get(x, y);
    if me.rb == 0 {
        SmokeMove::Vanish
    } else if me.rb > TURBULENT_THRESHOLD {
        laminar_move(g, x, y, generation)
    } else {
        turbulent_move(g, x, y, generation)
    }
}

/// The grid after `mv` has been carried out for the smoke cell at `(x, y)`.
pub open spec fn apply_smoke_move(
    g: GridView,
    x: int,
    y: int,
    generation: u8,
    mv: SmokeMove,
) -> GridView {
    let me = g.get(x, y);
    let older = aged(me);
    match mv {
        SmokeMove::Vanish => g.put(x, y, Cell::of(Species::Empty), generation),
        SmokeMove::Linger => g.put(x, y, older, generation),
        SmokeMove::Reseed => g.put(
            x,
            y,
            Cell { ra: older.ra.wrapping_add(generation), ..older },
            generation,
        ),
        SmokeMove::Drift { dx, dy } => g.relocate(x, y, x + dx, y + dy, older, generation),
        SmokeMove::Overtake => g.put(x, y, g.get(x, y - 1), generation).put(
            x,
            y - 1,
            older,
            generation,
        ),
        SmokeMove::Stuck => g.put(x, y, Cell { ra: older.ra ^ 1, ..older }, generation),
    }
}

/// The grid after the smoke rule has acted at `(x, y)`.
pub open spec fn smoke_step(g: GridView, x: int, y: int, generation: u8) -> GridView {
    apply_smoke_move(g, x, y, generation, smoke_move(g, x, y, generation))
}

/// The smoke rule keeps the grid's shape.
pub proof fn lemma_smoke_step_shape(g: GridView, x: int, y: int, generation: u8)
    requires
        g.wf(),
    ensures
        smoke_step(g, x, y, generation).wf(),
        smoke_step(g, x, y, generation).same_shape(g),
{
    let me = g.get(x, y);
    let older = aged(me);
    match smoke_move(g, x, y, generation) {
        SmokeMove::Vanish => lemma_put_shape(g, x, y, Cell::of(Species::Empty), generation),
        SmokeMove::Linger => lemma_put_shape(g, x, y, older, generation),
        SmokeMove::Reseed => lemma_put_shape(
            g,
            x,
            y,
            Cell { ra: older.ra.wrapping_add(generation), ..older },
            generation,
        ),
        SmokeMove::Drift { dx, dy } => lemma_relocate_shape(
            g,
            x,
            y,
            x + dx,
            y + dy,
            older,
            generation,
        ),
        SmokeMove::Overtake => {
            lemma_put_shape(g, x, y, g.get(x, y - 1), generation);
            lemma_put_shape(
                g.put(x, y, g.get(x, y - 1), generation),
                x,
                y - 1,
                older,
                generation,
            );
        },
        SmokeMove::Stuck => lemma_put_shape(g, x, y, Cell { ra: older.ra ^ 1, ..older }, generation),
    }
}

pub fn update_smoke(api: &mut SandApi)
    requires
        old(api).wf(),
    ensures
        final(api).wf(),
        final(api).bound_as(old(api)),
        *final(final(api).grid) == *final(old(api).grid),
        final(api).board() == smoke_step(
            old(api).board(),
            old(api).x as int,
            old(api).y as int,
            old(api).generation,
        ),
{
    let me = api.get(0, 0);

    if me.rb == 0 {
        api.set(0, 0, Cell::empty());
        return;
    }
    let mut updated = me;
    updated.rb = me.rb.saturating_sub(1);

    let gen = api.generation;
    let laminar = me.rb > TURBULENT_THRESHOLD;
    let dir: i32 = if me.ra % 2 == 0 {
        -1
    } else {
        1
    };

    // ── Laminar: fast, straight rise ──
    if laminar {
        if gen.wrapping_add(me.ra).wrapping_mul(7) % 10 < 1 {
            api.set(0, 0, updated);
            return;
        }
        let above = api.get(0, -1);
        if above.species == Species::Empty {
            api.set(0, 0, Cell::empty());
            api.set(0, -1, updated);
            return;
        }
        if api.get(dir, -1).species == Species::Empty {
            api.set(0, 0, Cell::empty());
            api.set(dir, -1, updated);
            return;
        }
        if api.get(-dir, -1).species == Species::Empty {
            api.set(0, 0, Cell::empty());
            api.set(-dir, -1, updated);
            return;
        }
        api.set(0, 0, updated);
        return;
    }
    // ── Turbulent: stall + random drift ──

    // Stall ~60%.
    let stall_roll = gen.wrapping_add(me.ra).wrapping_mul(7) % 10;
    if stall_roll < 6 {
        // Re-randomize drift while stalling.
        if gen.wrapping_add(me.ra) % 5 == 0 {
            updated.ra = updated.ra.wrapping_add(gen);
        }
        api.set(0, 0, updated);
        return;
    }
    // ~1-in-3 ticks: drift diagonally.

    if me.ra.wrapping_add(gen) % 3 == 0 {
        if api.get(dir, -1).species == Species::Empty {
            api.set(0, 0, Cell::empty());
            api.set(dir, -1, updated);
            return;
        }
    }
    // Straight up.

    if api.get(0, -1).species == Species::Empty {
        api.set(0, 0, Cell::empty());
        api.set(0, -1, updated);
        return;
    }
    // Fallback diagonals.

    if api.get(dir, -1).species == Species::Empty {
        api.set(0, 0, Cell::empty());
        api.set(dir, -1, updated);
        return;
    }
    if api.get(-dir, -1).species == Species::Empty {
        api.set(0, 0, Cell::empty());
        api.set(-dir, -1, updated);
        return;
    }
    // Swap with older smoke above.

    let above = api.get(0, -1);
    if above.species == Species::Smoke && above.rb < me.rb {
        api.set(0, 0, above);
        api.set(0, -1, updated);
        return;
    }
    // Horizontal escape.

    if api.get(dir, 0).species == Species::Empty {
        api.set(0, 0, Cell::empty());
        api.set(dir, 0, updated);
        return;
    }
    // Stuck — flip drift.

    updated.ra = updated.ra ^ 1;
    api.set(0, 0, updated);
}

} // verus!
