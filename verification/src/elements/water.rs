//! Water element: falls, slides diagonally, spreads horizontally.
//!
//! Diagonal and horizontal spread use per-particle `ra % 2` direction
//! for varied flow. Level swap alternates by generation parity to
//! distribute excess surface particles evenly (avoiding left-bias).
//!
//! Horizontal spread is a ray-cast: water scans up to `HORIZONTAL_RANGE`
//! cells each tick, moving to the nearest reachable empty cell.
//!
//! Level swap ray-casts through adjacent water to find a surface cell
//! (one with empty above), then swaps with it. The scan follows the
//! water body's contour around obstacles (stepping down/up when it
//! hits non-water cells), enabling leveling across sloped terrain.

use vstd::prelude::*;
use crate::api::SandApi;
use crate::cell::{Cell, Species};
use crate::census::{
    lemma_exchange_census, lemma_relocate_census, lemma_same_species_census,
    lemma_swap_alike_census, lemma_swap_into_census,
};
use crate::elements::parity_dir;
use crate::grid::{lemma_put_shape, lemma_relocate_shape, lemma_swap_into_shape, GridView};

verus! {

/// How far water ray-casts horizontally for empty cells each tick.
///
/// Five cells: a cell on the edge of a body spreads out by up to five
/// columns per tick, which keeps the flow viscous rather than instant.
pub const HORIZONTAL_RANGE: i32 = 5;

/// How far the level swap scans through water to find a surface cell.
///
/// Twenty probes, the steps up and down round an obstacle included: a
/// buried cell evens out columns at most twenty cells away, so a wide
/// body levels over several ticks.
pub const LEVEL_SCAN_RANGE: i32 = 20;

/// Every N-th generation a falling particle takes a new flow direction.
pub const FREEFALL_RERANDOMIZE_CHANCE: u8 = 20;

/// What a water cell does in one update.
pub enum WaterMove {
    /// Straight down into Empty.
    Fall,
    /// Diagonally down into Empty, to the column at offset `dx`.
    Slide { dx: int },
    /// Sideways along the row into the Empty cell at offset `dx`.
    Flow { dx: int },
    /// From the surface sideways into the supported Empty cell at offset `dx`.
    Hop { dx: int },
    /// Exchange with the surface cell at offset `(dx, dy)`.
    Level { dx: int, dy: int },
    /// Nothing is free: stay and turn round.
    Blocked,
}

/// The direction that surface hops and level swaps try first.
pub open spec fn sweep_dir(generation: u8) -> int {
    if generation % 2 == 0 {
        1
    } else {
        -1
    }
}

/// The distance, from `step` on and at most `HORIZONTAL_RANGE`, of the first
/// Empty cell in direction `dx` along the row, provided that only Water
/// lies before it.
pub open spec fn horizontal_reach(g: GridView, x: int, y: int, dx: int, step: int) -> Option<int>
    decreases HORIZONTAL_RANGE + 1 - step,
{
    if step > HORIZONTAL_RANGE {
        None
    } else if g.get(x + dx * step, y).species == Species::Empty {
        Some(step)
    } else if g.get(x + dx * step, y).species == Species::Water {
        horizontal_reach(g, x, y, dx, step + 1)
    } else {
        None
    }
}

/// The neighbour at offset `dx` is Empty and rests on something.
pub open spec fn can_hop(g: GridView, x: int, y: int, dx: int) -> bool {
    g.get(x + dx, y).species == Species::Empty && g.get(x + dx, y + 1).species != Species::Empty
}

/// The surface cell that a level scan finds, as an offset from `(x, y)`.
///
/// The scan stands at offset `(cx, cy)`, has crossed `crossed` Water cells
/// and has `rounds` probes left. On Water it accepts the cell if Empty lies
/// above it and it is at least the third Water cell crossed, and otherwise
/// moves on by `dx`; on anything else it steps one row down if Water lies
/// there, else one row up if Water lies there, else gives up.
pub open spec fn level_scan(
    g: GridView,
    x: int,
    y: int,
    dx: int,
    cx: int,
    cy: int,
    crossed: int,
    rounds: nat,
) -> Option<(int, int)>
    decreases rounds,
{
    if rounds == 0 {
        None
    } else if g.get(x + cx, y + cy).species == Species::Water {
        if g.get(x + cx, y + cy - 1).species == Species::Empty && crossed + 1 > 2 {
            Some((cx, cy))
        } else {
            level_scan(g, x, y, dx, cx + dx, cy, crossed + 1, (rounds - 1) as nat)
        }
    } else if g.get(x + cx, y + cy + 1).species == Species::Water {
        level_scan(g, x, y, dx, cx, cy + 1, crossed, (rounds - 1) as nat)
    } else if g.get(x + cx, y + cy - 1).species == Species::Water {
        level_scan(g, x, y, dx, cx, cy - 1, crossed, (rounds - 1) as nat)
    } else {
        None
    }
}

/// The surface cell that a full level scan in direction `dx` finds.
pub open spec fn level_target(g: GridView, x: int, y: int, dx: int) -> Option<(int, int)> {
    level_scan(g, x, y, dx, dx, 0, 0, LEVEL_SCAN_RANGE as nat)
}

/// The move that the water cell at `(x, y)` makes: the first of the phases
/// that succeeds.
pub open spec fn water_move(g: GridView, x: int, y: int, generation: u8) -> WaterMove {
    let dir = parity_dir(g.get(x, y).ra);
    let sweep = sweep_dir(generation);
    let below = g.get(x, y + 1).species;
    let above = g.get(x, y - 1).species;
    if below == Species::Empty {
        WaterMove::Fall
    } else if g.get(x + dir, y + 1).species == Species::Empty {
        WaterMove::Slide { dx: dir }
    } else if g.get(x - dir, y + 1).species == Species::Empty {
        WaterMove::Slide { dx: -dir }
    } else if horizontal_reach(g, x, y, dir, 1) is Some {
        WaterMove::Flow { dx: dir * horizontal_reach(g, x, y, dir, 1).unwrap() }
    } else if horizontal_reach(g, x, y, -dir, 1) is Some {
        WaterMove::Flow { dx: -dir * horizontal_reach(g, x, y, -dir, 1).unwrap() }
    } else if above == Species::Empty && below == Species::Water && can_hop(g, x, y, sweep) {
        WaterMove::Hop { dx: sweep }
    } else if above == Species::Empty && below == Species::Water && can_hop(g, x, y, -sweep) {
        WaterMove::Hop { dx: -sweep }
    } else if above != Species::Empty && level_target(g, x, y, sweep) is Some {
        let t = level_target(g, x, y, sweep).unwrap();
        WaterMove::Level { dx: t.0, dy: t.1 }
    } else if above != Species::Empty && level_target(g, x, y, -sweep) is Some {
        let t = level_target(g, x, y, -sweep).unwrap();
        WaterMove::Level { dx: t.0, dy: t.1 }
    } else {
        WaterMove::Blocked
    }
}

/// The falling cell: on every `FREEFALL_RERANDOMIZE_CHANCE`-th generation
/// its direction byte is replaced by the generation.
pub open spec fn falling(me: Cell, generation: u8) -> Cell {
    if generation % FREEFALL_RERANDOMIZE_CHANCE == 0 {
        Cell { ra: generation, ..me }
    } else {
        me
    }
}

/// The grid after `mv` has been carried out for the water cell at `(x, y)`.
pub open spec fn apply_water_move(
    g: GridView,
    x: int,
    y: int,
    generation: u8,
    mv: WaterMove,
) -> GridView {
    let me = g.get(x, y);
    match mv {
        WaterMove::Fall => g.put(x, y, g.get(x, y + 1), generation).put(
            x,
            y + 1,
            falling(me, generation),
            generation,
        ),
        WaterMove::Slide { dx } => g.swap_into(x, y, x + dx, y + 1, generation),
        WaterMove::Flow { dx } => g.relocate(x, y, x + dx, y, me, generation),
        WaterMove::Hop { dx } => g.relocate(x, y, x + dx, y, me, generation),
        WaterMove::Level { dx, dy } => g.swap_into(x, y, x + dx, y + dy, generation),
        WaterMove::Blocked => g.put(x, y, Cell { ra: me.ra ^ 1, ..me }, generation),
    }
}

/// The grid after the water rule has acted at `(x, y)`.
pub open spec fn water_step(g: GridView, x: int, y: int, generation: u8) -> GridView {
    apply_water_move(g, x, y, generation, water_move(g, x, y, generation))
}

/// The water rule keeps the grid's shape.
pub proof fn lemma_water_step_shape(g: GridView, x: int, y: int, generation: u8)
    requires
        g.wf(),
    ensures
        water_step(g, x, y, generation).wf(),
        water_step(g, x, y, generation).same_shape(g),
{
    let me = g.get(x, y);
    match water_move(g, x, y, generation) {
        WaterMove::Fall => {
            lemma_put_shape(g, x, y, g.get(x, y + 1), generation);
            lemma_put_shape(
                g.put(x, y, g.get(x, y + 1), generation),
                x,
                y + 1,
                falling(me, generation),
                generation,
            );
        },
        WaterMove::Slide { dx } => lemma_swap_into_shape(g, x, y, x + dx, y + 1, generation),
        WaterMove::Flow { dx } => lemma_relocate_shape(g, x, y, x + dx, y, me, generation),
        WaterMove::Hop { dx } => lemma_relocate_shape(g, x, y, x + dx, y, me, generation),
        WaterMove::Level { dx, dy } => lemma_swap_into_shape(g, x, y, x + dx, y + dy, generation),
        WaterMove::Blocked => lemma_put_shape(g, x, y, Cell { ra: me.ra ^ 1, ..me }, generation),
    }
}

/// A horizontal ray-cast that succeeds ends on an Empty cell, at least one
/// and at most `HORIZONTAL_RANGE` cells away.
pub proof fn lemma_horizontal_reach(g: GridView, x: int, y: int, dx: int, step: int)
    requires
        horizontal_reach(g, x, y, dx, step) is Some,
    ensures
        step <= horizontal_reach(g, x, y, dx, step).unwrap() <= HORIZONTAL_RANGE,
        g.get(x + dx * horizontal_reach(g, x, y, dx, step).unwrap(), y).species == Species::Empty,
    decreases HORIZONTAL_RANGE + 1 - step,
{
    if step <= HORIZONTAL_RANGE && g.get(x + dx * step, y).species != Species::Empty {
        lemma_horizontal_reach(g, x, y, dx, step + 1);
    }
}

/// A level scan that succeeds ends on a Water cell.
pub proof fn lemma_level_scan(
    g: GridView,
    x: int,
    y: int,
    dx: int,
    cx: int,
    cy: int,
    crossed: int,
    rounds: nat,
)
    requires
        level_scan(g, x, y, dx, cx, cy, crossed, rounds) is Some,
    ensures
        g.get(
            x + level_scan(g, x, y, dx, cx, cy, crossed, rounds).unwrap().0,
            y + level_scan(g, x, y, dx, cx, cy, crossed, rounds).unwrap().1,
        ).species == Species::Water,
    decreases rounds,
{
    if rounds > 0 {
        if g.get(x + cx, y + cy).species == Species::Water {
            if !(g.get(x + cx, y + cy - 1).species == Species::Empty && crossed + 1 > 2) {
                lemma_level_scan(g, x, y, dx, cx + dx, cy, crossed + 1, (rounds - 1) as nat);
            }
        } else if g.get(x + cx, y + cy + 1).species == Species::Water {
            lemma_level_scan(g, x, y, dx, cx, cy + 1, crossed, (rounds - 1) as nat);
        } else if g.get(x + cx, y + cy - 1).species == Species::Water {
            lemma_level_scan(g, x, y, dx, cx, cy - 1, crossed, (rounds - 1) as nat);
        }
    }
}

/// A surface hop is never the move made: an Empty neighbour in the same row
/// is within reach of the horizontal ray-cast, which comes first.
pub proof fn lemma_flow_comes_before_hop(g: GridView, x: int, y: int, generation: u8)
    ensures
        !(water_move(g, x, y, generation) is Hop),
{
    let dir = parity_dir(g.get(x, y).ra);
    assert(dir * 1 == dir && -dir * 1 == -dir);
}

/// No water cell is ever created or destroyed: the water rule keeps the
/// count of every species.
pub proof fn lemma_water_step_census(g: GridView, x: int, y: int, generation: u8)
    requires
        g.wf(),
        g.get(x, y).species == Species::Water,
    ensures
        water_step(g, x, y, generation).census() == g.census(),
{
    let me = g.get(x, y);
    let dir = parity_dir(me.ra);
    let sweep = sweep_dir(generation);
    match water_move(g, x, y, generation) {
        WaterMove::Fall => {
            lemma_exchange_census(
                g,
                x,
                y,
                g.get(x, y + 1).stamped(generation),
                x,
                y + 1,
                falling(me, generation).stamped(generation),
            );
        },
        WaterMove::Slide { dx } => lemma_swap_into_census(g, x, y, x + dx, y + 1, generation),
        WaterMove::Flow { dx } => {
            if horizontal_reach(g, x, y, dir, 1) is Some {
                lemma_horizontal_reach(g, x, y, dir, 1);
                let n = horizontal_reach(g, x, y, dir, 1).unwrap();
                assert(dir * n == n || dir * n == -n) by (nonlinear_arith)
                    requires
                        dir == 1 || dir == -1,
                ;
            } else {
                lemma_horizontal_reach(g, x, y, -dir, 1);
                let n = horizontal_reach(g, x, y, -dir, 1).unwrap();
                assert(-dir * n == n || -dir * n == -n) by (nonlinear_arith)
                    requires
                        dir == 1 || dir == -1,
                ;
            }
            lemma_relocate_census(g, x, y, x + dx, y, me, generation);
        },
        WaterMove::Hop { dx } => lemma_relocate_census(g, x, y, x + dx, y, me, generation),
        WaterMove::Level { dx, dy } => {
            if level_target(g, x, y, sweep) is Some {
                lemma_level_scan(g, x, y, sweep, sweep, 0, 0, LEVEL_SCAN_RANGE as nat);
            } else {
                lemma_level_scan(g, x, y, -sweep, -sweep, 0, 0, LEVEL_SCAN_RANGE as nat);
            }
            lemma_swap_alike_census(g, x, y, x + dx, y + dy, generation);
        },
        WaterMove::Blocked => lemma_same_species_census(
            g,
            x,
            y,
            (Cell { ra: me.ra ^ 1, ..me }).stamped(generation),
        ),
    }
}

pub fn update_water(api: &mut SandApi)
    requires
        old(api).wf(),
    ensures
        final(api).wf(),
        final(api).bound_as(old(api)),
        *final(final(api).grid) == *final(old(api).grid),
        final(api).board() == water_step(
            old(api).board(),
            old(api).x as int,
            old(api).y as int,
            old(api).generation,
        ),
{
    let me = api.get(0, 0);
    let dir: i32 = if me.ra % 2 == 0 {
        -1
    } else {
        1
    };

    // Phase 1: Gravity — fall straight down.
    let below = api.get(0, 1);
    if below.species == Species::Empty {
        let mut falling = me;
        if api.generation % FREEFALL_RERANDOMIZE_CHANCE == 0 {
            falling.ra = api.generation;
        }
        api.set(0, 0, below);
        api.set(0, 1, falling);
        return;
    }
    // Phase 2: Diagonal fall — per-particle direction for varied flow.

    let diag1 = api.get(dir, 1);
    if diag1.species == Species::Empty {
        api.set(0, 0, diag1);
        api.set(dir, 1, me);
        return;
    }
    let diag2 = api.get(-dir, 1);
    if diag2.species == Species::Empty {
        api.set(0, 0, diag2);
        api.set(-dir, 1, me);
        return;
    }
    // Phase 3: Horizontal ray-cast spread — per-particle direction.

    if try_horizontal(api, &me, dir) {
        return;
    }
    if try_horizontal(api, &me, -dir) {
        return;
    }
    let above = api.get(0, -1);

    // Phase 4: Surface diffusion — a surface particle (empty above) sitting
    // on water flows sideways into an empty neighbor that has support
    // below. The direction tried first alternates by generation parity.
    if above.species == Species::Empty && below.species == Species::Water {
        let surf_dir: i32 = if api.generation % 2 == 0 {
            1
        } else {
            -1
        };
        if try_surface_hop(api, &me, surf_dir) {
            return;
        }
        if try_surface_hop(api, &me, -surf_dir) {
            return;
        }
    }
    // Phase 5: Level swap — only for buried cells (not surface).
    // Ray-cast through water to find a surface cell and swap with it.
    // This moves mass from tall columns to short ones.

    if above.species != Species::Empty {
        let level_dir: i32 = if api.generation % 2 == 0 {
            1
        } else {
            -1
        };
        if try_level_swap(api, &me, level_dir) {
            return;
        }
        if try_level_swap(api, &me, -level_dir) {
            return;
        }
    }
    // Phase 6: Fully blocked — flip direction.

    let mut blocked = me;
    blocked.ra = blocked.ra ^ 1;
    api.set(0, 0, blocked);
}

/// The distance of the nearest Empty cell in direction `dx` that a
/// horizontal ray-cast reaches.
fn find_horizontal(api: &SandApi, dx: i32) -> (found: Option<i32>)
    requires
        api.wf(),
        dx == 1 || dx == -1,
    ensures
        match found {
            Some(step) => horizontal_reach(api.board(), api.x as int, api.y as int, dx as int, 1)
                == Some(step as int) && 1 <= step <= HORIZONTAL_RANGE,
            None => horizontal_reach(api.board(), api.x as int, api.y as int, dx as int, 1)
                is None,
        },
{
    let mut step: i32 = 1;
    while step <= HORIZONTAL_RANGE
        invariant
            api.wf(),
            dx == 1 || dx == -1,
            1 <= step <= HORIZONTAL_RANGE + 1,
            horizontal_reach(api.board(), api.x as int, api.y as int, dx as int, 1)
                == horizontal_reach(api.board(), api.x as int, api.y as int, dx as int, step as int),
        decreases HORIZONTAL_RANGE + 1 - step,
    {
        assert(dx * step == step || dx * step == -step) by (nonlinear_arith)
            requires
                dx == 1 || dx == -1,
        ;
        let neighbor = api.get(dx * step, 0);
        if neighbor.species == Species::Empty {
            return Some(step);
        }
        if neighbor.species != Species::Water {
            return None;
        }
        step = step + 1;
    }
    None
}

/// Ray-cast up to HORIZONTAL_RANGE cells in direction `dx`.
/// Move to the nearest reachable empty cell (viscous flow).
fn try_horizontal(api: &mut SandApi, me: &Cell, dx: i32) -> (moved: bool)
    requires
        old(api).wf(),
        dx == 1 || dx == -1,
    ensures
        final(api).wf(),
        final(api).bound_as(old(api)),
        *final(final(api).grid) == *final(old(api).grid),
        moved == (horizontal_reach(old(api).board(), old(api).x as int, old(api).y as int, dx as int, 1)
            is Some),
        !moved ==> final(api).board() == old(api).board(),
        moved ==> final(api).board() == old(api).board().relocate(
            old(api).x as int,
            old(api).y as int,
            old(api).x + dx * horizontal_reach(
                old(api).board(),
                old(api).x as int,
                old(api).y as int,
                dx as int,
                1,
            ).unwrap(),
            old(api).y as int,
            *me,
            old(api).generation,
        ),
{
    match find_horizontal(api, dx) {
        Some(step) => {
            assert(dx * step == step || dx * step == -step) by (nonlinear_arith)
                requires
                    dx == 1 || dx == -1,
            ;
            api.set(0, 0, Cell::empty());
            api.set(dx * step, 0, *me);
            true
        },
        None => false,
    }
}

/// The surface cell that a level scan in direction `dx` finds.
fn find_level_target(api: &SandApi, dx: i32) -> (found: Option<(i32, i32)>)
    requires
        api.wf(),
        dx == 1 || dx == -1,
    ensures
        match found {
            Some(t) => level_target(api.board(), api.x as int, api.y as int, dx as int) == Some(
                (t.0 as int, t.1 as int),
            ),
            None => level_target(api.board(), api.x as int, api.y as int, dx as int) is None,
        },
{
    let mut cx: i32 = dx;
    let mut cy: i32 = 0;
    let mut steps_taken: i32 = 0;
    let mut round: i32 = 0;
    while round < LEVEL_SCAN_RANGE
        invariant
            api.wf(),
            dx == 1 || dx == -1,
            0 <= round <= LEVEL_SCAN_RANGE,
            -round - 1 <= cx <= round + 1,
            -round <= cy <= round,
            0 <= steps_taken <= round,
            level_target(api.board(), api.x as int, api.y as int, dx as int) == level_scan(
                api.board(),
                api.x as int,
                api.y as int,
                dx as int,
                cx as int,
                cy as int,
                steps_taken as int,
                (LEVEL_SCAN_RANGE - round) as nat,
            ),
        decreases LEVEL_SCAN_RANGE - round,
    {
        let neighbor = api.get(cx, cy);
        if neighbor.species == Species::Water {
            steps_taken = steps_taken + 1;
            let neighbor_above = api.get(cx, cy - 1);
            if neighbor_above.species == Species::Empty && steps_taken > 2 {
                // Found a surface cell far enough away to be in a
                // different (shorter) column.
                return Some((cx, cy));
            }
            cx = cx + dx;
        } else {
            // Hit a non-water cell. Step down (gravity preference) or
            // up to follow the water body's contour.
            let scan_below = api.get(cx, cy + 1);
            if scan_below.species == Species::Water {
                cy = cy + 1;
            } else {
                let scan_above = api.get(cx, cy - 1);
                if scan_above.species == Species::Water {
                    cy = cy - 1;
                } else {
                    return None;
                }
            }
        }
        round = round + 1;
    }
    None
}

/// Scan through water in direction `dx` up to LEVEL_SCAN_RANGE cells.
/// Find a water cell that has empty above it (a surface cell) and swap
/// with it, redistributing mass from tall columns to short ones.
///
/// Skips surface cells found in the first 2 steps to avoid pointless
/// swaps with adjacent cells at the same height, which cause
/// oscillation near walls and obstacles.
fn try_level_swap(api: &mut SandApi, me: &Cell, dx: i32) -> (moved: bool)
    requires
        old(api).wf(),
        dx == 1 || dx == -1,
        *me == old(api).board().get(old(api).x as int, old(api).y as int),
    ensures
        final(api).wf(),
        final(api).bound_as(old(api)),
        *final(final(api).grid) == *final(old(api).grid),
        moved == (level_target(old(api).board(), old(api).x as int, old(api).y as int, dx as int)
            is Some),
        !moved ==> final(api).board() == old(api).board(),
        moved ==> final(api).board() == old(api).board().swap_into(
            old(api).x as int,
            old(api).y as int,
            old(api).x + level_target(
                old(api).board(),
                old(api).x as int,
                old(api).y as int,
                dx as int,
            ).unwrap().0,
            old(api).y + level_target(
                old(api).board(),
                old(api).x as int,
                old(api).y as int,
                dx as int,
            ).unwrap().1,
            old(api).generation,
        ),
{
    match find_level_target(api, dx) {
        Some((cx, cy)) => {
            let neighbor = api.get(cx, cy);
            api.set(0, 0, neighbor);
            api.set(cx, cy, *me);
            true
        },
        None => false,
    }
}

/// Surface hop: move this surface particle to an adjacent shorter column.
///
/// If the neighbor is empty with support below, flow sideways into it.
fn try_surface_hop(api: &mut SandApi, me: &Cell, dx: i32) -> (moved: bool)
    requires
        old(api).wf(),
        dx == 1 || dx == -1,
    ensures
        final(api).wf(),
        final(api).bound_as(old(api)),
        *final(final(api).grid) == *final(old(api).grid),
        moved == can_hop(old(api).board(), old(api).x as int, old(api).y as int, dx as int),
        !moved ==> final(api).board() == old(api).board(),
        moved ==> final(api).board() == old(api).board().relocate(
            old(api).x as int,
            old(api).y as int,
            old(api).x + dx,
            old(api).y as int,
            *me,
            old(api).generation,
        ),
{
    let neighbor = api.get(dx, 0);
    if neighbor.species == Species::Empty {
        // Neighbor column is shorter — flow sideways into it.
        // Only if there's support below (not floating in open air).
        let below_neighbor = api.get(dx, 1);
        if below_neighbor.species != Species::Empty {
            api.set(0, 0, Cell::empty());
            api.set(dx, 0, *me);
            return true;
        }
    }
    false
}

} // verus!
