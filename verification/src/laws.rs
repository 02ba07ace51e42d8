//! What holds of the scheduler over whole ticks: the generation counter,
//! the conservation of species, and what becomes of a grain of sand.

use vstd::prelude::*;
use vstd::arithmetic::div_mod::lemma_add_mod_noop;
use crate::cell::{Cell, Species};
use crate::census::lemma_census_counts;
use crate::elements::ghost::MOVE_DIVISOR;
use crate::elements::water::water_move;
use crate::grid::{
    lemma_put_shape, lemma_set_get, lemma_swap_into_get, lemma_swap_into_shape, GridView,
};
use crate::tick::{
    advanced, cell_step, lemma_cell_step_shape, lemma_scan_rows_census, lemma_scan_rows_shape,
    lemma_tick_shape, scan_col, scan_row, scan_rows, tick_spec,
};

verus! {

/// The grid `n` ticks later.
pub open spec fn ticks(g: GridView, n: nat) -> GridView
    decreases n,
{
    if n == 0 {
        g
    } else {
        tick_spec(ticks(g, (n - 1) as nat))
    }
}

/// After `n` ticks the generation has advanced by `n`, modulo 256: from
/// generation 0 it is `n mod 256`.
pub proof fn lemma_generation_after_ticks(g: GridView, n: nat)
    requires
        g.wf(),
    ensures
        ticks(g, n).wf(),
        ticks(g, n).width == g.width,
        ticks(g, n).height == g.height,
        ticks(g, n).generation == (g.generation + n) % 256,
        g.generation == 0 ==> ticks(g, n).generation == n % 256,
    decreases n,
{
    if n > 0 {
        let before = ticks(g, (n - 1) as nat);
        lemma_generation_after_ticks(g, (n - 1) as nat);
        lemma_tick_shape(before);
        let start = g.generation as int;
        assert(((start + n - 1) % 256 + 1) % 256 == (start + n) % 256) by {
            lemma_add_mod_noop(start + n - 1, 1, 256);
        }
    }
}

/// A cell whose clock already equals the generation of the scan is never
/// handed to a rule: the visit of the scan changes nothing.
pub proof fn lemma_stamped_cell_skipped(g: GridView, x: int, y: int, generation: u8)
    requires
        g.get(x, y).clock == generation,
    ensures
        cell_step(g, x, y, generation) == g,
{
}

/// On a grid without Fire, Smoke and specters a tick keeps the count of
/// every species: all movement is an exchange of places.
pub proof fn lemma_tick_census(g: GridView)
    requires
        g.wf(),
        g.lacks(Species::Fire),
        g.lacks(Species::Smoke),
        g.lacks(Species::Specter),
    ensures
        tick_spec(g).wf(),
        tick_spec(g).census() == g.census(),
        tick_spec(g).lacks(Species::Fire),
        tick_spec(g).lacks(Species::Smoke),
        tick_spec(g).lacks(Species::Specter),
{
    let g1 = advanced(g);
    assert(g1.lacks(Species::Specter));
    assert(g1.lacks(Species::Fire));
    assert(g1.lacks(Species::Smoke));
    assert(g1.census() == g.census());
    lemma_scan_rows_census(g1, g1.generation, g.height as nat);
    lemma_scan_rows_shape(g1, g1.generation, g.height as nat);
    lemma_census_counts(g, Species::Specter);
    lemma_census_counts(tick_spec(g), Species::Specter);
}

/// On a grid without Fire, Smoke and specters the count of every species
/// stays the same over any number of ticks: water that levels out, and
/// sand that settles, is never gained or lost.
pub proof fn lemma_ticks_census(g: GridView, n: nat)
    requires
        g.wf(),
        g.lacks(Species::Fire),
        g.lacks(Species::Smoke),
        g.lacks(Species::Specter),
    ensures
        ticks(g, n).wf(),
        ticks(g, n).census() == g.census(),
        ticks(g, n).lacks(Species::Fire),
        ticks(g, n).lacks(Species::Smoke),
        ticks(g, n).lacks(Species::Specter),
    decreases n,
{
    if n > 0 {
        lemma_ticks_census(g, (n - 1) as nat);
        lemma_tick_census(ticks(g, (n - 1) as nat));
    }
}

/// The number of the visit, within its row, at which the scan comes to
/// column `x`.
pub open spec fn visit_of(width: int, generation: u8, x: int) -> int {
    if generation % 2 == 0 {
        x
    } else {
        width - 1 - x
    }
}

/// The scan passes over the cell: it is Empty, Wall or already stamped with
/// `generation`.
pub open spec fn is_passed_over(cell: Cell, generation: u8) -> bool {
    cell.species.is_immobile() || cell.clock == generation
}

/// The scan passes over every cell of row `row` but the one in column `x`.
pub open spec fn row_rests_but(g: GridView, row: int, x: int, generation: u8) -> bool {
    forall|cx: int|
        g.in_bounds(cx, row) && cx != x ==> is_passed_over(#[trigger] g.get(cx, row), generation)
}

/// The scan passes over every cell of row `row`.
pub open spec fn row_rests(g: GridView, row: int, generation: u8) -> bool {
    forall|cx: int| g.in_bounds(cx, row) ==> is_passed_over(#[trigger] g.get(cx, row), generation)
}

/// In a row in which at most the cell in column `x` is due to act, and
/// after whose act the whole row rests, the scan does what the visit of
/// that cell does, and nothing before or after it.
pub proof fn lemma_scan_row_lone(g: GridView, row: int, generation: u8, n: nat, x: int)
    requires
        g.wf(),
        row_rests_but(g, row, x, generation),
        row_rests(cell_step(g, x, row, generation), row, generation),
    ensures
        scan_row(g, row, generation, n) == if n <= visit_of(g.width, generation, x) {
            g
        } else {
            cell_step(g, x, row, generation)
        },
    decreases n,
{
    let after = cell_step(g, x, row, generation);
    lemma_cell_step_shape(g, x, row, generation);
    if n > 0 {
        lemma_scan_row_lone(g, row, generation, (n - 1) as nat, x);
        let col = scan_col(g.width, generation, n - 1);
        let k = visit_of(g.width, generation, x);
        if n - 1 < k {
            if g.in_bounds(col, row) {
                assert(is_passed_over(g.get(col, row), generation));
            }
        } else if n - 1 == k {
            assert(col == x);
        } else {
            if after.in_bounds(col, row) {
                assert(is_passed_over(after.get(col, row), generation));
            }
        }
    }
}

/// The scan of a row changes nothing if it passes over every cell of it.
pub proof fn lemma_scan_row_rests(g: GridView, row: int, generation: u8, n: nat)
    requires
        g.wf(),
        row_rests(g, row, generation),
    ensures
        scan_row(g, row, generation, n) == g,
    decreases n,
{
    if n > 0 {
        lemma_scan_row_rests(g, row, generation, (n - 1) as nat);
        let col = scan_col(g.width, generation, n - 1);
        if g.in_bounds(col, row) {
            assert(is_passed_over(g.get(col, row), generation));
        }
    }
}

/// The grid in which the blocked water at `(x, y + 1)` has turned round.
pub open spec fn water_turned(g: GridView, x: int, y: int, generation: u8) -> GridView {
    g.put(
        x,
        y + 1,
        Cell { ra: g.get(x, y + 1).ra ^ 1, ..g.get(x, y + 1) },
        generation,
    )
}

/// The grid in which the blocked water at `(x, y + 1)` has turned round and
/// the sand at `(x, y)` has then exchanged places with it.
pub open spec fn sand_sunk(g: GridView, x: int, y: int, generation: u8) -> GridView {
    water_turned(g, x, y, generation).swap_into(x, y, x, y + 1, generation)
}

/// The scan of the lowest `rows` rows of a grid in which a grain of sand
/// lies directly above a water cell that has nowhere to go, and nothing
/// else is due to act: the scan comes to the water first, which turns
/// round, and then to the sand, which exchanges places with it.
pub proof fn lemma_rows_sand_over_water(g: GridView, generation: u8, rows: nat, x: int, y: int)
    requires
        g.wf(),
        g.in_bounds(x, y),
        g.in_bounds(x, y + 1),
        g.get(x, y).species == Species::Sand,
        g.get(x, y).clock != generation,
        g.get(x, y + 1).species == Species::Water,
        g.get(x, y + 1).clock != generation,
        water_move(g, x, y + 1, generation) is Blocked,
        forall|cx: int, cy: int|
            g.in_bounds(cx, cy) && !(cx == x && (cy == y || cy == y + 1)) ==> is_passed_over(
                #[trigger] g.get(cx, cy),
                generation,
            ),
    ensures
        scan_rows(g, generation, rows) == if rows < g.height - y - 1 {
            g
        } else if rows == g.height - y - 1 {
            water_turned(g, x, y, generation)
        } else {
            sand_sunk(g, x, y, generation)
        },
    decreases rows,
{
    let turned = water_turned(g, x, y, generation);
    let sunk = sand_sunk(g, x, y, generation);
    let water = g.get(x, y + 1);
    let flipped = Cell { ra: water.ra ^ 1, ..water };
    lemma_put_shape(g, x, y + 1, flipped, generation);
    lemma_swap_into_shape(turned, x, y, x, y + 1, generation);
    assert(cell_step(g, x, y + 1, generation) == turned);
    assert forall|cx: int, cy: int| true implies turned.get(cx, cy) == if cx == x && cy == y + 1 {
        flipped.stamped(generation)
    } else {
        g.get(cx, cy)
    } by {
        lemma_set_get(g, x, y + 1, flipped.stamped(generation), cx, cy);
    }
    assert(cell_step(turned, x, y, generation) == sunk);
    assert forall|cx: int, cy: int| true implies sunk.get(cx, cy) == if cx == x && cy == y + 1 {
        g.get(x, y).stamped(generation)
    } else if cx == x && cy == y {
        flipped.stamped(generation)
    } else {
        g.get(cx, cy)
    } by {
        lemma_swap_into_get(turned, x, y, x, y + 1, generation, cx, cy);
    }
    if rows > 0 {
        lemma_rows_sand_over_water(g, generation, (rows - 1) as nat, x, y);
        let row = g.height - rows;
        if rows < g.height - y - 1 {
            assert(row_rests(g, row, generation));
            lemma_scan_row_rests(g, row, generation, g.width as nat);
        } else if rows == g.height - y - 1 {
            assert(row_rests_but(g, row, x, generation));
            assert(row_rests(turned, row, generation));
            lemma_scan_row_lone(g, row, generation, g.width as nat, x);
        } else if rows == g.height - y {
            assert(row_rests_but(turned, row, x, generation));
            assert(row_rests(sunk, row, generation));
            lemma_scan_row_lone(turned, row, generation, g.width as nat, x);
        } else {
            assert(row_rests(sunk, row, generation));
            lemma_scan_row_rests(sunk, row, generation, g.width as nat);
        }
    }
}

/// Sand directly above Water that has nowhere to go: after one tick the
/// two have exchanged places. The water, which the scan reaches first,
/// has turned round; both carry the stamp of the new generation; and every
/// other cell is as it was, provided that nothing else was due to act.
pub proof fn lemma_sand_sinks_through_blocked_water(g: GridView, x: int, y: int)
    requires
        g.wf(),
        g.in_bounds(x, y),
        g.in_bounds(x, y + 1),
        g.get(x, y).species == Species::Sand,
        g.get(x, y).clock != advanced(g).generation,
        g.get(x, y + 1).species == Species::Water,
        g.get(x, y + 1).clock != advanced(g).generation,
        water_move(advanced(g), x, y + 1, advanced(g).generation) is Blocked,
        forall|cx: int, cy: int|
            g.in_bounds(cx, cy) && !(cx == x && (cy == y || cy == y + 1)) ==> is_passed_over(
                #[trigger] g.get(cx, cy),
                advanced(g).generation,
            ),
        g.lacks(Species::Specter) || advanced(g).generation % MOVE_DIVISOR != 0,
    ensures
        tick_spec(g).get(x, y + 1) == g.get(x, y).stamped(advanced(g).generation),
        tick_spec(g).get(x, y) == (Cell { ra: g.get(x, y + 1).ra ^ 1, ..g.get(x, y + 1) }).stamped(
            advanced(g).generation,
        ),
        forall|cx: int, cy: int|
            cx != x || (cy != y && cy != y + 1) ==> tick_spec(g).get(cx, cy) == g.get(cx, cy),
{
    let g1 = advanced(g);
    let generation = g1.generation;
    assert forall|cx: int, cy: int| true implies g1.get(cx, cy) == g.get(cx, cy) by {}
    if g.lacks(Species::Specter) {
        assert(g1.lacks(Species::Specter));
    }
    lemma_rows_sand_over_water(g1, generation, g.height as nat, x, y);
    let turned = water_turned(g1, x, y, generation);
    let water = g1.get(x, y + 1);
    let flipped = Cell { ra: water.ra ^ 1, ..water };
    lemma_put_shape(g1, x, y + 1, flipped, generation);
    assert forall|cx: int, cy: int| true implies turned.get(cx, cy) == if cx == x && cy == y + 1 {
        flipped.stamped(generation)
    } else {
        g1.get(cx, cy)
    } by {
        lemma_set_get(g1, x, y + 1, flipped.stamped(generation), cx, cy);
    }
    assert forall|cx: int, cy: int| cx != x || (cy != y && cy != y + 1) implies tick_spec(g).get(
        cx,
        cy,
    ) == g.get(cx, cy) by {
        lemma_swap_into_get(turned, x, y, x, y + 1, generation, cx, cy);
    }
    lemma_swap_into_get(turned, x, y, x, y + 1, generation, x, y);
    lemma_swap_into_get(turned, x, y, x, y + 1, generation, x, y + 1);
}

/// The scan of the lowest `rows` rows of a grid in which a grain of sand
/// lies above an Empty cell and nothing else is due to act: once the scan
/// has passed the grain's row the two have exchanged places, and nothing
/// else has changed.
pub proof fn lemma_rows_lone_sand(g: GridView, generation: u8, rows: nat, x: int, y: int)
    requires
        g.wf(),
        g.in_bounds(x, y),
        g.in_bounds(x, y + 1),
        g.get(x, y).species == Species::Sand,
        g.get(x, y).clock != generation,
        g.get(x, y + 1).species == Species::Empty,
        forall|cx: int, cy: int|
            g.in_bounds(cx, cy) && (cx != x || cy != y) ==> is_passed_over(
                #[trigger] g.get(cx, cy),
                generation,
            ),
    ensures
        scan_rows(g, generation, rows) == if rows < g.height - y {
            g
        } else {
            g.swap_into(x, y, x, y + 1, generation)
        },
    decreases rows,
{
    let fallen = g.swap_into(x, y, x, y + 1, generation);
    lemma_swap_into_shape(g, x, y, x, y + 1, generation);
    assert(cell_step(g, x, y, generation) == fallen);
    assert forall|cx: int, cy: int| true implies fallen.get(cx, cy) == if cx == x && cy == y + 1 {
        g.get(x, y).stamped(generation)
    } else if cx == x && cy == y {
        g.get(x, y + 1).stamped(generation)
    } else {
        g.get(cx, cy)
    } by {
        lemma_swap_into_get(g, x, y, x, y + 1, generation, cx, cy);
    }
    if rows > 0 {
        lemma_rows_lone_sand(g, generation, (rows - 1) as nat, x, y);
        let row = g.height - rows;
        if rows < g.height - y {
            assert(row_rests(g, row, generation));
            lemma_scan_row_rests(g, row, generation, g.width as nat);
        } else if rows == g.height - y {
            assert(row_rests_but(g, row, x, generation));
            assert(row_rests(fallen, row, generation));
            lemma_scan_row_lone(g, row, generation, g.width as nat, x);
        } else {
            assert(row_rests(fallen, row, generation));
            lemma_scan_row_rests(fallen, row, generation, g.width as nat);
        }
    }
}

/// A grain of sand above an Empty cell falls exactly one row per tick when
/// nothing else is due to act: after the tick the grain lies one row lower
/// and the Empty cell has taken its place, both stamped with the new
/// generation, and every other cell is as it was.
pub proof fn lemma_lone_sand_falls(g: GridView, x: int, y: int)
    requires
        g.wf(),
        g.in_bounds(x, y),
        g.in_bounds(x, y + 1),
        g.get(x, y).species == Species::Sand,
        g.get(x, y).clock != advanced(g).generation,
        g.get(x, y + 1).species == Species::Empty,
        forall|cx: int, cy: int|
            g.in_bounds(cx, cy) && (cx != x || cy != y) ==> is_passed_over(
                #[trigger] g.get(cx, cy),
                advanced(g).generation,
            ),
        g.lacks(Species::Specter) || advanced(g).generation % MOVE_DIVISOR != 0,
    ensures
        tick_spec(g).get(x, y + 1) == g.get(x, y).stamped(advanced(g).generation),
        tick_spec(g).get(x, y) == g.get(x, y + 1).stamped(advanced(g).generation),
        forall|cx: int, cy: int|
            cx != x || (cy != y && cy != y + 1) ==> tick_spec(g).get(cx, cy) == g.get(cx, cy),
{
    let g1 = advanced(g);
    let generation = g1.generation;
    assert forall|cx: int, cy: int| true implies g1.get(cx, cy) == g.get(cx, cy) by {}
    if g.lacks(Species::Specter) {
        assert(g1.lacks(Species::Specter));
    }
    lemma_rows_lone_sand(g1, generation, g.height as nat, x, y);
    assert forall|cx: int, cy: int| cx != x || (cy != y && cy != y + 1) implies tick_spec(g).get(
        cx,
        cy,
    ) == g.get(cx, cy) by {
        lemma_swap_into_get(g1, x, y, x, y + 1, generation, cx, cy);
    }
    lemma_swap_into_get(g1, x, y, x, y + 1, generation, x, y);
    lemma_swap_into_get(g1, x, y, x, y + 1, generation, x, y + 1);
}

} // verus!
