//! The rigid-group mover: translates whole specter groups atomically.
//!
//! A group is the set of Specter cells that share a group id in `ra`. On a
//! move generation each group takes one step in its shared direction, all
//! of its cells or none: the shape never deforms.

use vstd::prelude::*;
use vstd::seq_lib::{to_multiset_build, to_multiset_contains, to_multiset_insert};
use crate::cell::{Cell, Species};
use crate::census::lemma_exchange_census;
use crate::elements::ghost::{group_direction, is_unit_step, shared_direction, MOVE_DIVISOR};
use crate::grid::{lemma_coords_of_index, lemma_index_in_range, lemma_set_get, Grid, GridView};

verus! {

/// `(x, y)` holds a cell of group `id`.
pub open spec fn is_member(g: GridView, id: u8, x: int, y: int) -> bool {
    g.in_bounds(x, y) && g.get(x, y).species == Species::Specter && g.get(x, y).ra == id
}

/// A cell of group `id` may move to `(x, y)`: it lies inside the grid and
/// holds Empty or another cell of the same group.
pub open spec fn welcomes(g: GridView, id: u8, x: int, y: int) -> bool {
    g.in_bounds(x, y) && (g.get(x, y).species == Species::Empty || is_member(g, id, x, y))
}

/// Every cell of group `id` may take the step `(dx, dy)`.
pub open spec fn can_move(g: GridView, id: u8, dx: int, dy: int) -> bool {
    forall|x: int, y: int| #[trigger] is_member(g, id, x, y) ==> welcomes(g, id, x + dx, y + dy)
}

/// Group `id` has no cell on the grid.
pub open spec fn is_absent(g: GridView, id: u8) -> bool {
    forall|x: int, y: int| !#[trigger] is_member(g, id, x, y)
}

/// How many unit steps `(dx, dy)` can be taken from `(x, y)` before the
/// grid is left.
pub open spec fn room(g: GridView, dx: int, dy: int, x: int, y: int) -> int {
    if dx > 0 {
        g.width - x
    } else if dx < 0 {
        x + 1
    } else if dy > 0 {
        g.height - y
    } else {
        y + 1
    }
}

/// The first coordinate, going from `(x, y)` by steps of `(dx, dy)`, that
/// holds no cell of group `id`.
pub open spec fn chain_end(g: GridView, id: u8, dx: int, dy: int, x: int, y: int) -> (int, int)
    decreases room(g, dx, dy, x, y),
{
    if is_member(g, id, x, y) && is_unit_step(dx, dy) {
        chain_end(g, id, dx, dy, x + dx, y + dy)
    } else {
        (x, y)
    }
}

/// The cell at `(x, y)` after group `id` has taken the step `(dx, dy)`.
///
/// Where a member arrives, it is that member, stamped with the generation.
/// Where a member leaves and none arrives, it is the cell that lay in front
/// of the row of members leaving in that line, as it was. Elsewhere
/// nothing changes.
pub open spec fn moved_cell(
    g: GridView,
    id: u8,
    dx: int,
    dy: int,
    generation: u8,
    x: int,
    y: int,
) -> Cell {
    if is_member(g, id, x - dx, y - dy) {
        g.get(x - dx, y - dy).stamped(generation)
    } else if is_member(g, id, x, y) {
        let end = chain_end(g, id, dx, dy, x + dx, y + dy);
        g.get(end.0, end.1)
    } else {
        g.get(x, y)
    }
}

/// The grid after group `id` has taken the step `(dx, dy)` as one rigid
/// shape.
pub open spec fn translate(g: GridView, id: u8, dx: int, dy: int, generation: u8) -> GridView {
    GridView {
        cells: Seq::new(
            g.cells.len(),
            |i: int| moved_cell(g, id, dx, dy, generation, g.col_of(i), g.row_of(i)),
        ),
        ..g
    }
}

/// Group `id` moves one step in its direction if every one of its cells
/// can, and else stays as it is.
pub open spec fn move_group(g: GridView, id: u8, generation: u8) -> GridView {
    let d = group_direction(generation, id);
    if can_move(g, id, d.0, d.1) {
        translate(g, id, d.0, d.1, generation)
    } else {
        g
    }
}

/// The grid after the groups with an id below `n` have moved, in ascending
/// order of their ids.
pub open spec fn move_groups(g: GridView, generation: u8, n: nat) -> GridView
    decreases n,
{
    if n == 0 {
        g
    } else {
        move_group(move_groups(g, generation, (n - 1) as nat), (n - 1) as u8, generation)
    }
}

/// The grid after the mover has run for `generation`: on generations that
/// are a multiple of `MOVE_DIVISOR` every group moves, else nothing does.
pub open spec fn groups_moved(g: GridView, generation: u8) -> GridView {
    if generation % MOVE_DIVISOR == 0 {
        move_groups(g, generation, 256)
    } else {
        g
    }
}

/// A translation keeps the grid's shape, and its cells are those that
/// `moved_cell` names.
pub proof fn lemma_translate_get(
    g: GridView,
    id: u8,
    dx: int,
    dy: int,
    generation: u8,
    x: int,
    y: int,
)
    requires
        g.wf(),
    ensures
        translate(g, id, dx, dy, generation).wf(),
        translate(g, id, dx, dy, generation).same_shape(g),
        g.in_bounds(x, y) ==> translate(g, id, dx, dy, generation).get(x, y) == moved_cell(
            g,
            id,
            dx,
            dy,
            generation,
            x,
            y,
        ),
{
    if g.in_bounds(x, y) {
        let t = translate(g, id, dx, dy, generation);
        lemma_index_in_range(g, x, y);
        let i = g.index(x, y);
        lemma_coords_of_index(g, i);
        crate::grid::lemma_index_injective(g, x, y, g.col_of(i), g.row_of(i));
    }
}

/// In front of a group that can move, each line of members ends on an
/// Empty cell inside the grid.
pub proof fn lemma_chain_end(g: GridView, id: u8, dx: int, dy: int, x: int, y: int)
    requires
        g.wf(),
        is_unit_step(dx, dy),
        can_move(g, id, dx, dy),
        welcomes(g, id, x, y),
    ensures
        g.in_bounds(chain_end(g, id, dx, dy, x, y).0, chain_end(g, id, dx, dy, x, y).1),
        g.get(chain_end(g, id, dx, dy, x, y).0, chain_end(g, id, dx, dy, x, y).1).species
            == Species::Empty,
    decreases room(g, dx, dy, x, y),
{
    if is_member(g, id, x, y) {
        lemma_chain_end(g, id, dx, dy, x + dx, y + dy);
    }
}

/// A group's move leaves the cells of every other group where they are.
pub proof fn lemma_translate_keeps_others(
    g: GridView,
    id: u8,
    dx: int,
    dy: int,
    generation: u8,
    other: u8,
    x: int,
    y: int,
)
    requires
        g.wf(),
        is_unit_step(dx, dy),
        can_move(g, id, dx, dy),
        other != id,
    ensures
        is_member(translate(g, id, dx, dy, generation), other, x, y) == is_member(g, other, x, y),
{
    lemma_translate_get(g, id, dx, dy, generation, x, y);
    if g.in_bounds(x, y) {
        if is_member(g, id, x - dx, y - dy) {
            assert(welcomes(g, id, x - dx + dx, y - dy + dy));
        } else if is_member(g, id, x, y) {
            assert(welcomes(g, id, x + dx, y + dy));
            lemma_chain_end(g, id, dx, dy, x + dx, y + dy);
        }
    }
}

/// Moving a group that has no cell changes nothing.
pub proof fn lemma_translate_absent(g: GridView, id: u8, dx: int, dy: int, generation: u8)
    requires
        g.wf(),
        is_absent(g, id),
    ensures
        translate(g, id, dx, dy, generation) == g,
{
    let t = translate(g, id, dx, dy, generation);
    assert forall|i: int| 0 <= i < g.cells.len() implies t.cells[i] == g.cells[i] by {
        lemma_coords_of_index(g, i);
        assert(!is_member(g, id, g.col_of(i) - dx, g.row_of(i) - dy));
        assert(!is_member(g, id, g.col_of(i), g.row_of(i)));
    }
    assert(t.cells =~= g.cells);
}

/// Group `id` is in `after` where it was in `before`, cell for cell.
pub open spec fn group_stays(before: GridView, after: GridView, id: u8) -> bool {
    forall|x: int, y: int|
        {
            &&& is_member(after, id, x, y) == #[trigger] is_member(before, id, x, y)
            &&& is_member(before, id, x, y) ==> after.get(x, y) == before.get(x, y)
        }
}

/// Group `id` is in `after` one step `(dx, dy)` from where it was in
/// `before`, cell for cell and stamped with `generation`: the same shape
/// in a new place.
pub open spec fn group_steps(
    before: GridView,
    after: GridView,
    id: u8,
    dx: int,
    dy: int,
    generation: u8,
) -> bool {
    forall|x: int, y: int|
        {
            &&& is_member(after, id, x + dx, y + dy) == #[trigger] is_member(before, id, x, y)
            &&& is_member(before, id, x, y) ==> after.get(x + dx, y + dy) == before.get(
                x,
                y,
            ).stamped(generation)
        }
}

/// Every direction that a group can take is one step along the compass.
pub proof fn lemma_direction_is_unit(generation: u8, id: u8)
    ensures
        is_unit_step(group_direction(generation, id).0, group_direction(generation, id).1),
{
}

/// A group moves all-or-nothing: if every one of its cells can take the
/// step, the whole shape is found one step further, and else the grid is
/// as it was.
pub proof fn lemma_move_group_rigid(g: GridView, id: u8, generation: u8)
    requires
        g.wf(),
    ensures
        can_move(g, id, group_direction(generation, id).0, group_direction(generation, id).1)
            ==> group_steps(
            g,
            move_group(g, id, generation),
            id,
            group_direction(generation, id).0,
            group_direction(generation, id).1,
            generation,
        ),
        !can_move(g, id, group_direction(generation, id).0, group_direction(generation, id).1)
            ==> move_group(g, id, generation) == g,
{
    let d = group_direction(generation, id);
    lemma_direction_is_unit(generation, id);
    if can_move(g, id, d.0, d.1) {
        let after = translate(g, id, d.0, d.1, generation);
        assert forall|x: int, y: int|
            {
                &&& is_member(after, id, x + d.0, y + d.1) == #[trigger] is_member(g, id, x, y)
                &&& is_member(g, id, x, y) ==> after.get(x + d.0, y + d.1) == g.get(x, y).stamped(
                    generation,
                )
            } by {
            lemma_translate_get(g, id, d.0, d.1, generation, x + d.0, y + d.1);
            if is_member(g, id, x, y) {
                assert(welcomes(g, id, x + d.0, y + d.1));
            } else if is_member(g, id, x + d.0, y + d.1) {
                assert(welcomes(g, id, x + d.0 + d.0, y + d.1 + d.1));
                lemma_chain_end(g, id, d.0, d.1, x + d.0 + d.0, y + d.1 + d.1);
            }
        }
    }
}

/// The move of one group leaves every other group where it is, cell for
/// cell.
pub proof fn lemma_move_group_keeps_other(g: GridView, mover: u8, generation: u8, id: u8)
    requires
        g.wf(),
        mover != id,
    ensures
        group_stays(g, move_group(g, mover, generation), id),
{
    let d = group_direction(generation, mover);
    lemma_direction_is_unit(generation, mover);
    if can_move(g, mover, d.0, d.1) {
        let after = translate(g, mover, d.0, d.1, generation);
        assert forall|x: int, y: int|
            {
                &&& is_member(after, id, x, y) == #[trigger] is_member(g, id, x, y)
                &&& is_member(g, id, x, y) ==> after.get(x, y) == g.get(x, y)
            } by {
            lemma_translate_keeps_others(g, mover, d.0, d.1, generation, id, x, y);
            lemma_translate_get(g, mover, d.0, d.1, generation, x, y);
            if is_member(g, id, x, y) && is_member(g, mover, x - d.0, y - d.1) {
                assert(welcomes(g, mover, x - d.0 + d.0, y - d.1 + d.1));
            }
        }
    }
}

/// After the groups with an id below `n` have moved, group `id` has kept
/// its place if its turn has yet to come; if it has had its turn, it has
/// kept its place or taken one step as a whole.
pub proof fn lemma_move_groups_rigid(g: GridView, generation: u8, n: nat, id: u8)
    requires
        g.wf(),
        n <= 256,
    ensures
        move_groups(g, generation, n).wf(),
        group_stays(g, move_groups(g, generation, n), id) || (n > id && group_steps(
            g,
            move_groups(g, generation, n),
            id,
            group_direction(generation, id).0,
            group_direction(generation, id).1,
            generation,
        )),
    decreases n,
{
    if n > 0 {
        lemma_move_groups_rigid(g, generation, (n - 1) as nat, id);
        let before = move_groups(g, generation, (n - 1) as nat);
        let mover = (n - 1) as u8;
        let after = move_group(before, mover, generation);
        let d = group_direction(generation, id);
        let dm = group_direction(generation, mover);
        lemma_translate_get(before, mover, dm.0, dm.1, generation, 0, 0);
        if mover == id {
            lemma_move_group_rigid(before, id, generation);
            if can_move(before, id, d.0, d.1) {
                assert forall|x: int, y: int|
                    {
                        &&& is_member(after, id, x + d.0, y + d.1) == #[trigger] is_member(
                            g,
                            id,
                            x,
                            y,
                        )
                        &&& is_member(g, id, x, y) ==> after.get(x + d.0, y + d.1) == g.get(
                            x,
                            y,
                        ).stamped(generation)
                    } by {
                    assert(is_member(before, id, x, y) == is_member(g, id, x, y));
                }
            }
        } else {
            lemma_move_group_keeps_other(before, mover, generation, id);
            if group_stays(g, before, id) {
                assert forall|x: int, y: int|
                    {
                        &&& is_member(after, id, x, y) == #[trigger] is_member(g, id, x, y)
                        &&& is_member(g, id, x, y) ==> after.get(x, y) == g.get(x, y)
                    } by {
                    assert(is_member(before, id, x, y) == is_member(g, id, x, y));
                }
            } else {
                assert forall|x: int, y: int|
                    {
                        &&& is_member(after, id, x + d.0, y + d.1) == #[trigger] is_member(
                            g,
                            id,
                            x,
                            y,
                        )
                        &&& is_member(g, id, x, y) ==> after.get(x + d.0, y + d.1) == g.get(
                            x,
                            y,
                        ).stamped(generation)
                    } by {
                    assert(is_member(before, id, x + d.0, y + d.1) == is_member(g, id, x, y));
                    assert(is_member(after, id, x + d.0, y + d.1) == is_member(
                        before,
                        id,
                        x + d.0,
                        y + d.1,
                    ));
                }
            }
        }
    }
}

/// A group's internal geometry is invariant under the mover: whatever the
/// other groups do, each group is afterwards where it was, or one step in
/// its direction from there as a single rigid shape.
pub proof fn lemma_groups_move_rigidly(g: GridView, generation: u8, id: u8)
    requires
        g.wf(),
    ensures
        group_stays(g, groups_moved(g, generation), id) || group_steps(
            g,
            groups_moved(g, generation),
            id,
            group_direction(generation, id).0,
            group_direction(generation, id).1,
            generation,
        ),
{
    if generation % MOVE_DIVISOR == 0 {
        lemma_move_groups_rigid(g, generation, 256, id);
    }
}

/// `p` comes before `q` in row-major order.
pub open spec fn scans_before(p: (int, int), q: (int, int)) -> bool {
    p.1 < q.1 || (p.1 == q.1 && p.0 < q.0)
}

/// `positions` lists, in row-major order and with its group id, every
/// Specter cell of `g` whose group id is at least `from`; an entry with a
/// lower id may be stale.
pub open spec fn lists_specters(positions: Seq<(i32, i32, u8)>, g: GridView, from: int) -> bool {
    &&& forall|i: int, j: int|
        0 <= i < j < positions.len() ==> scans_before(
            (positions[i].0 as int, positions[i].1 as int),
            (positions[j].0 as int, positions[j].1 as int),
        )
    &&& forall|j: int|
        0 <= j < positions.len() && positions[j].2 >= from ==> is_member(
            g,
            (#[trigger] positions[j]).2,
            positions[j].0 as int,
            positions[j].1 as int,
        )
    &&& forall|x: int, y: int, id: u8|
        id >= from && #[trigger] is_member(g, id, x, y) ==> exists|j: int|
            0 <= j < positions.len() && #[trigger] positions[j] == (x as i32, y as i32, id)
}

/// `cells` lists every cell of group `id` exactly once, and nothing else.
pub open spec fn lists_group(cells: Seq<(i32, i32)>, g: GridView, id: u8) -> bool {
    &&& cells.no_duplicates()
    &&& forall|j: int|
        0 <= j < cells.len() ==> is_member(g, id, (#[trigger] cells[j]).0 as int, cells[j].1 as int)
    &&& forall|x: int, y: int| #[trigger]
        is_member(g, id, x, y) ==> cells.contains((x as i32, y as i32))
}

/// How far `v` lies along the direction `d` of one axis.
pub open spec fn along(v: int, d: int) -> int {
    if d > 0 {
        v
    } else if d < 0 {
        -v
    } else {
        0
    }
}

/// How far `p` lies along the movement vector `(dx, dy)`.
pub open spec fn score(p: (i32, i32), dx: int, dy: int) -> int {
    along(p.0 as int, dx) + along(p.1 as int, dy)
}

/// Cells furthest along the movement vector come first.
pub open spec fn is_descending(cells: Seq<(i32, i32)>, dx: int, dy: int) -> bool {
    forall|i: int, j: int|
        0 <= i < j < cells.len() ==> score(#[trigger] cells[i], dx, dy) >= score(
            #[trigger] cells[j],
            dx,
            dy,
        )
}

/// `(x, y)` is among the first `n` entries of `cells`.
pub open spec fn relocated(cells: Seq<(i32, i32)>, n: int, x: int, y: int) -> bool {
    exists|j: int| 0 <= j < n && (#[trigger] cells[j]).0 == x && cells[j].1 == y
}

/// The cell at `(x, y)` once the first `n` entries of `cells` have taken
/// the step `(dx, dy)`, in that order.
pub open spec fn partly_moved_cell(
    g: GridView,
    id: u8,
    dx: int,
    dy: int,
    generation: u8,
    cells: Seq<(i32, i32)>,
    n: int,
    x: int,
    y: int,
) -> Cell {
    if relocated(cells, n, x - dx, y - dy) {
        g.get(x - dx, y - dy).stamped(generation)
    } else if relocated(cells, n, x, y) {
        let end = chain_end(g, id, dx, dy, x + dx, y + dy);
        g.get(end.0, end.1)
    } else {
        g.get(x, y)
    }
}

/// A list with the same entries as one that lists a group lists it too.
pub proof fn lemma_permuted_lists_group(a: Seq<(i32, i32)>, b: Seq<(i32, i32)>, g: GridView, id: u8)
    requires
        lists_group(a, g, id),
        a.to_multiset() == b.to_multiset(),
    ensures
        lists_group(b, g, id),
{
    a.lemma_multiset_has_no_duplicates();
    b.lemma_multiset_has_no_duplicates_conv();
    assert forall|j: int| 0 <= j < b.len() implies is_member(
        g,
        id,
        (#[trigger] b[j]).0 as int,
        b[j].1 as int,
    ) by {
        to_multiset_contains(a, b[j]);
        to_multiset_contains(b, b[j]);
        assert(b.contains(b[j]));
        let k = choose|k: int| 0 <= k < a.len() && a[k] == b[j];
        assert(is_member(g, id, a[k].0 as int, a[k].1 as int));
    }
    assert forall|x: int, y: int| #[trigger] is_member(g, id, x, y) implies b.contains(
        (x as i32, y as i32),
    ) by {
        to_multiset_contains(a, (x as i32, y as i32));
        to_multiset_contains(b, (x as i32, y as i32));
    }
}

/// How far `p` lies along the movement vector `(dx, dy)`.
fn score_of(p: (i32, i32), dx: i32, dy: i32) -> (s: i64)
    ensures
        s == score(p, dx as int, dy as int),
{
    let sx: i64 = if dx > 0 {
        p.0 as i64
    } else if dx < 0 {
        -(p.0 as i64)
    } else {
        0
    };
    let sy: i64 = if dy > 0 {
        p.1 as i64
    } else if dy < 0 {
        -(p.1 as i64)
    } else {
        0
    };
    sx + sy
}

/// Sort so that cells furthest in movement direction come first; cells
/// equally far keep their order.
fn sort_by_score(cells: Vec<(i32, i32)>, dx: i32, dy: i32) -> (sorted: Vec<(i32, i32)>)
    ensures
        sorted@.to_multiset() == cells@.to_multiset(),
        sorted@.len() == cells@.len(),
        is_descending(sorted@, dx as int, dy as int),
{
    let mut sorted: Vec<(i32, i32)> = Vec::new();
    let mut i: usize = 0;
    proof {
        assert(cells@.take(0) =~= sorted@);
    }
    while i < cells.len()
        invariant
            0 <= i <= cells@.len(),
            sorted@.len() == i,
            sorted@.to_multiset() == cells@.take(i as int).to_multiset(),
            is_descending(sorted@, dx as int, dy as int),
        decreases cells@.len() - i,
    {
        let p = cells[i];
        let s = score_of(p, dx, dy);
        let mut k: usize = 0;
        while k < sorted.len() && score_of(sorted[k], dx, dy) >= s
            invariant
                0 <= k <= sorted@.len(),
                s == score(p, dx as int, dy as int),
                forall|j: int| 0 <= j < k ==> score(#[trigger] sorted@[j], dx as int, dy as int) >= s,
            decreases sorted@.len() - k,
        {
            k = k + 1;
        }
        proof {
            let before = sorted@;
            let after = before.insert(k as int, p);
            to_multiset_insert(before, k as int, p);
            to_multiset_build(cells@.take(i as int), p);
            assert(cells@.take(i as int).push(p) =~= cells@.take(i + 1));
            assert forall|a: int, b: int| 0 <= a < b < after.len() implies score(
                #[trigger] after[a],
                dx as int,
                dy as int,
            ) >= score(#[trigger] after[b], dx as int, dy as int) by {
                if b < k {
                    assert(after[a] == before[a] && after[b] == before[b]);
                } else if b == k {
                    assert(after[a] == before[a]);
                } else if a < k {
                    assert(after[a] == before[a] && after[b] == before[b - 1]);
                } else if a == k {
                    assert(after[b] == before[b - 1]);
                    assert(score(before[k as int], dx as int, dy as int) < s);
                    assert(score(before[k as int], dx as int, dy as int) >= score(
                        before[b - 1],
                        dx as int,
                        dy as int,
                    ) || k == b - 1);
                } else {
                    assert(after[a] == before[a - 1] && after[b] == before[b - 1]);
                }
            }
        }
        sorted.insert(k, p);
        i = i + 1;
    }
    proof {
        assert(cells@.take(cells@.len() as int) =~= cells@);
    }
    sorted
}

impl Grid {
    /// Returns true if any specter cell exists in the grid.
    pub fn has_ghosts(&self) -> (found: bool)
        ensures
            found == !self@.lacks(Species::Specter),
    {
        let mut i: usize = 0;
        while i < self.cells.len()
            invariant
                0 <= i <= self.cells@.len(),
                forall|j: int| 0 <= j < i ==> (#[trigger] self.cells@[j]).species != Species::Specter,
            decreases self.cells@.len() - i,
        {
            if self.cells[i].species == Species::Specter {
                return true;
            }
            i = i + 1;
        }
        false
    }

    /// Collect all specter cell positions with their group ID (ra).
    fn collect_ghosts(&self) -> (positions: Vec<(i32, i32, u8)>)
        requires
            self.wf(),
        ensures
            lists_specters(positions@, self@, 0),
    {
        let w: i32 = self.width as i32;
        let h: i32 = self.height as i32;
        let mut positions: Vec<(i32, i32, u8)> = Vec::new();
        let mut y: i32 = 0;
        while y < h
            invariant
                self.wf(),
                w == self.width,
                h == self.height,
                0 <= y <= h,
                forall|i: int, j: int|
                    0 <= i < j < positions@.len() ==> scans_before(
                        (positions@[i].0 as int, positions@[i].1 as int),
                        (positions@[j].0 as int, positions@[j].1 as int),
                    ),
                forall|j: int|
                    0 <= j < positions@.len() ==> (#[trigger] positions@[j]).1 < y && is_member(
                        self@,
                        positions@[j].2,
                        positions@[j].0 as int,
                        positions@[j].1 as int,
                    ),
                forall|px: int, py: int, id: u8|
                    py < y && #[trigger] is_member(self@, id, px, py) ==> exists|j: int|
                        0 <= j < positions@.len() && #[trigger] positions@[j] == (
                            px as i32,
                            py as i32,
                            id,
                        ),
            decreases h - y,
        {
            let mut x: i32 = 0;
            while x < w
                invariant
                    self.wf(),
                    w == self.width,
                    h == self.height,
                    0 <= y < h,
                    0 <= x <= w,
                    forall|i: int, j: int|
                        0 <= i < j < positions@.len() ==> scans_before(
                            (positions@[i].0 as int, positions@[i].1 as int),
                            (positions@[j].0 as int, positions@[j].1 as int),
                        ),
                    forall|j: int|
                        0 <= j < positions@.len() ==> scans_before(
                            ((#[trigger] positions@[j]).0 as int, positions@[j].1 as int),
                            (x as int, y as int),
                        ) && is_member(
                            self@,
                            positions@[j].2,
                            positions@[j].0 as int,
                            positions@[j].1 as int,
                        ),
                    forall|px: int, py: int, id: u8|
                        scans_before((px, py), (x as int, y as int)) && #[trigger] is_member(
                            self@,
                            id,
                            px,
                            py,
                        ) ==> exists|j: int|
                            0 <= j < positions@.len() && #[trigger] positions@[j] == (
                                px as i32,
                                py as i32,
                                id,
                            ),
                decreases w - x,
            {
                let cell = self.get(x, y);
                if cell.species == Species::Specter {
                    let ghost before = positions@;
                    positions.push((x, y, cell.ra));
                    proof {
                        let last = before.len() as int;
                        assert(positions@[last] == (x, y, cell.ra));
                        assert forall|px: int, py: int, id: u8|
                            scans_before((px, py), (x + 1, y as int)) && #[trigger] is_member(
                                self@,
                                id,
                                px,
                                py,
                            ) implies exists|j: int|
                            0 <= j < positions@.len() && #[trigger] positions@[j] == (
                                px as i32,
                                py as i32,
                                id,
                            ) by {
                            if scans_before((px, py), (x as int, y as int)) {
                                let j = choose|j: int|
                                    0 <= j < before.len() && #[trigger] before[j] == (
                                        px as i32,
                                        py as i32,
                                        id,
                                    );
                                assert(positions@[j] == before[j]);
                            } else {
                                assert(px == x && py == y);
                            }
                        }
                    }
                }
                x = x + 1;
            }
            y = y + 1;
        }
        positions
    }

    /// The cells of one group, in row-major order.
    fn select_group(&self, positions: &Vec<(i32, i32, u8)>, group_id: u8) -> (cells: Vec<(i32, i32)>)
        requires
            self.wf(),
            lists_specters(positions@, self@, group_id as int),
        ensures
            lists_group(cells@, self@, group_id),
    {
        let mut cells: Vec<(i32, i32)> = Vec::new();
        let mut i: usize = 0;
        while i < positions.len()
            invariant
                self.wf(),
                0 <= i <= positions@.len(),
                lists_specters(positions@, self@, group_id as int),
                forall|a: int, b: int|
                    0 <= a < b < cells@.len() ==> scans_before(
                        (cells@[a].0 as int, cells@[a].1 as int),
                        (cells@[b].0 as int, cells@[b].1 as int),
                    ),
                forall|j: int|
                    0 <= j < cells@.len() ==> is_member(
                        self@,
                        group_id,
                        (#[trigger] cells@[j]).0 as int,
                        cells@[j].1 as int,
                    ) && exists|k: int|
                        0 <= k < i && (#[trigger] positions@[k]).0 == cells@[j].0 && positions@[k].1
                            == cells@[j].1,
                forall|k: int|
                    0 <= k < i && (#[trigger] positions@[k]).2 == group_id ==> cells@.contains(
                        (positions@[k].0, positions@[k].1),
                    ),
            decreases positions@.len() - i,
        {
            let entry = positions[i];
            if entry.2 == group_id {
                let ghost before = cells@;
                cells.push((entry.0, entry.1));
                proof {
                    let last = before.len() as int;
                    assert(cells@[last] == (entry.0, entry.1));
                    assert forall|a: int, b: int| 0 <= a < b < cells@.len() implies scans_before(
                        (cells@[a].0 as int, cells@[a].1 as int),
                        (cells@[b].0 as int, cells@[b].1 as int),
                    ) by {
                        if b == last {
                            assert(cells@[a] == before[a]);
                            let k = choose|k: int|
                                0 <= k < i && (#[trigger] positions@[k]).0 == before[a].0
                                    && positions@[k].1 == before[a].1;
                            assert(scans_before(
                                (positions@[k].0 as int, positions@[k].1 as int),
                                (positions@[i as int].0 as int, positions@[i as int].1 as int),
                            ));
                        } else {
                            assert(cells@[a] == before[a] && cells@[b] == before[b]);
                        }
                    }
                    assert forall|j: int| 0 <= j < cells@.len() implies is_member(
                        self@,
                        group_id,
                        (#[trigger] cells@[j]).0 as int,
                        cells@[j].1 as int,
                    ) && exists|k: int|
                        0 <= k < i + 1 && (#[trigger] positions@[k]).0 == cells@[j].0
                            && positions@[k].1 == cells@[j].1 by {
                        if j == last {
                            assert(positions@[i as int].0 == cells@[j].0);
                        } else {
                            assert(cells@[j] == before[j]);
                            let k = choose|k: int|
                                0 <= k < i && (#[trigger] positions@[k]).0 == before[j].0
                                    && positions@[k].1 == before[j].1;
                            assert(positions@[k].0 == cells@[j].0);
                        }
                    }
                    assert forall|k: int|
                        0 <= k < i + 1 && (#[trigger] positions@[k]).2
                            == group_id implies cells@.contains((positions@[k].0, positions@[k].1)) by {
                        if k == i {
                            assert(cells@[last] == (positions@[k].0, positions@[k].1));
                        } else {
                            assert(before.contains((positions@[k].0, positions@[k].1)));
                            let j = choose|j: int|
                                0 <= j < before.len() && before[j] == (
                                    positions@[k].0,
                                    positions@[k].1,
                                );
                            assert(cells@[j] == before[j]);
                        }
                    }
                }
            }
            i = i + 1;
        }
        proof {
            assert forall|a: int, b: int| 0 <= a < b < cells@.len() implies cells@[a]
                != cells@[b] by {
                assert(scans_before(
                    (cells@[a].0 as int, cells@[a].1 as int),
                    (cells@[b].0 as int, cells@[b].1 as int),
                ));
            }
            assert forall|x: int, y: int| #[trigger]
                is_member(self@, group_id, x, y) implies cells@.contains((x as i32, y as i32)) by {
                let k = choose|k: int|
                    0 <= k < positions@.len() && #[trigger] positions@[k] == (
                        x as i32,
                        y as i32,
                        group_id,
                    );
                assert(positions@[k].2 == group_id);
            }
        }
        cells
    }

    /// Check that every destination is either empty or a specter of the
    /// same group.
    fn group_can_move(&self, cells: &Vec<(i32, i32)>, group_id: u8, dx: i32, dy: i32) -> (ok: bool)
        requires
            self.wf(),
            is_unit_step(dx as int, dy as int),
            lists_group(cells@, self@, group_id),
        ensures
            ok == can_move(self@, group_id, dx as int, dy as int),
    {
        let mut i: usize = 0;
        while i < cells.len()
            invariant
                self.wf(),
                is_unit_step(dx as int, dy as int),
                lists_group(cells@, self@, group_id),
                0 <= i <= cells@.len(),
                forall|j: int|
                    0 <= j < i ==> welcomes(
                        self@,
                        group_id,
                        (#[trigger] cells@[j]).0 + dx,
                        cells@[j].1 + dy,
                    ),
            decreases cells@.len() - i,
        {
            let (x, y) = cells[i];
            assert(is_member(self@, group_id, cells@[i as int].0 as int, cells@[i as int].1 as int));
            let nx: i32 = x + dx;
            let ny: i32 = y + dy;
            if !self.in_bounds(nx, ny) {
                return false;
            }
            let dest = self.get(nx, ny);
            if !(dest.species == Species::Empty || (dest.species == Species::Specter && dest.ra
                == group_id)) {
                return false;
            }
            i = i + 1;
        }
        proof {
            assert forall|x: int, y: int| #[trigger]
                is_member(self@, group_id, x, y) implies welcomes(
                self@,
                group_id,
                x + dx,
                y + dy,
            ) by {
                assert(cells@.contains((x as i32, y as i32)));
                let j = choose|j: int| 0 <= j < cells@.len() && cells@[j] == (x as i32, y as i32);
                assert(welcomes(self@, group_id, cells@[j].0 + dx, cells@[j].1 + dy));
            }
        }
        true
    }

    /// Relocate the cells of a group that can move, in the order given:
    /// furthest along the movement vector first, so that a member vacates
    /// its cell before a trailing member moves into it.
    fn relocate_group(&mut self, cells: &Vec<(i32, i32)>, group_id: u8, dx: i32, dy: i32, gen: u8)
        requires
            old(self).wf(),
            is_unit_step(dx as int, dy as int),
            can_move(old(self)@, group_id, dx as int, dy as int),
            lists_group(cells@, old(self)@, group_id),
            is_descending(cells@, dx as int, dy as int),
        ensures
            final(self).wf(),
            final(self)@ == translate(old(self)@, group_id, dx as int, dy as int, gen),
            final(self)@.census() == old(self)@.census(),
    {
        let ghost g = self@;
        let mut i: usize = 0;
        while i < cells.len()
            invariant
                self.wf(),
                g.wf(),
                self@.same_shape(g),
                g.width <= i32::MAX,
                g.height <= i32::MAX,
                is_unit_step(dx as int, dy as int),
                can_move(g, group_id, dx as int, dy as int),
                lists_group(cells@, g, group_id),
                is_descending(cells@, dx as int, dy as int),
                0 <= i <= cells@.len(),
                self@.census() == g.census(),
                forall|x: int, y: int|
                    g.in_bounds(x, y) ==> self@.get(x, y) == #[trigger] partly_moved_cell(
                        g,
                        group_id,
                        dx as int,
                        dy as int,
                        gen,
                        cells@,
                        i as int,
                        x,
                        y,
                    ),
            decreases cells@.len() - i,
        {
            let (x, y) = cells[i];
            proof {
                lemma_next_in_line(g, group_id, dx as int, dy as int, gen, cells@, i as int);
                let _ = partly_moved_cell(
                    g,
                    group_id,
                    dx as int,
                    dy as int,
                    gen,
                    cells@,
                    i as int,
                    x as int,
                    y as int,
                );
                let _ = partly_moved_cell(
                    g,
                    group_id,
                    dx as int,
                    dy as int,
                    gen,
                    cells@,
                    i as int,
                    x + dx,
                    y + dy,
                );
            }
            let nx: i32 = x + dx;
            let ny: i32 = y + dy;
            let mut ghost_cell = self.get(x, y);
            ghost_cell.clock = gen;
            let dest_cell = self.get(nx, ny);
            let ghost cur = self@;
            self.set(x, y, dest_cell);
            self.set(nx, ny, ghost_cell);
            proof {
                lemma_exchange_census(
                    cur,
                    x as int,
                    y as int,
                    dest_cell,
                    nx as int,
                    ny as int,
                    ghost_cell,
                );
                assert forall|px: int, py: int| g.in_bounds(px, py) implies self@.get(px, py)
                    == #[trigger] partly_moved_cell(
                    g,
                    group_id,
                    dx as int,
                    dy as int,
                    gen,
                    cells@,
                    i + 1,
                    px,
                    py,
                ) by {
                    lemma_set_get(cur, x as int, y as int, dest_cell, px, py);
                    lemma_set_get(
                        cur.set(x as int, y as int, dest_cell),
                        nx as int,
                        ny as int,
                        ghost_cell,
                        px,
                        py,
                    );
                    lemma_relocated_step(cells@, i as int, px, py);
                    lemma_relocated_step(cells@, i as int, px - dx, py - dy);
                    let _ = partly_moved_cell(
                        g,
                        group_id,
                        dx as int,
                        dy as int,
                        gen,
                        cells@,
                        i as int,
                        px,
                        py,
                    );
                }
            }
            i = i + 1;
        }
        proof {
            let t = translate(g, group_id, dx as int, dy as int, gen);
            assert forall|k: int| 0 <= k < g.cells.len() implies self@.cells[k] == t.cells[k] by {
                lemma_coords_of_index(g, k);
                lemma_coords_of_index(self@, k);
                let px = g.col_of(k);
                let py = g.row_of(k);
                lemma_all_relocated(g, group_id, cells@, px, py);
                lemma_all_relocated(g, group_id, cells@, px - dx, py - dy);
                let _ = partly_moved_cell(
                    g,
                    group_id,
                    dx as int,
                    dy as int,
                    gen,
                    cells@,
                    cells@.len() as int,
                    px,
                    py,
                );
            }
            assert(self@.cells =~= t.cells);
        }
    }

    /// Move one group a step in its direction, if every one of its cells
    /// can. `positions` is the list collected before any group moved.
    fn move_group_at(&mut self, positions: &Vec<(i32, i32, u8)>, group_id: u8, gen: u8)
        requires
            old(self).wf(),
            lists_specters(positions@, old(self)@, group_id as int),
        ensures
            final(self).wf(),
            final(self)@ == move_group(old(self)@, group_id, gen),
            final(self)@.same_shape(old(self)@),
            final(self)@.census() == old(self)@.census(),
            lists_specters(positions@, final(self)@, group_id + 1),
    {
        // Each group gets its own direction by mixing group_id into the hash.
        let (dx, dy) = shared_direction(gen, group_id);
        let group_cells = self.select_group(positions, group_id);
        if group_cells.len() == 0 {
            proof {
                assert forall|x: int, y: int| !#[trigger] is_member(self@, group_id, x, y) by {
                    if is_member(self@, group_id, x, y) {
                        assert(group_cells@.contains((x as i32, y as i32)));
                    }
                }
                lemma_translate_absent(self@, group_id, dx as int, dy as int, gen);
            }
            return;
        }
        if !self.group_can_move(&group_cells, group_id, dx, dy) {
            return;
        }
        // Sort so we process cells furthest in movement direction first.
        let ghost before = self@;
        let sorted = sort_by_score(group_cells, dx, dy);
        proof {
            lemma_permuted_lists_group(group_cells@, sorted@, self@, group_id);
        }
        self.relocate_group(&sorted, group_id, dx, dy, gen);
        proof {
            assert forall|x: int, y: int, other: u8| other != group_id implies #[trigger] is_member(
                self@,
                other,
                x,
                y,
            ) == is_member(before, other, x, y) by {
                lemma_translate_keeps_others(
                    before,
                    group_id,
                    dx as int,
                    dy as int,
                    gen,
                    other,
                    x,
                    y,
                );
            }
        }
    }

    /// Move all specter cells one step, group by group.
    ///
    /// Collects the specter positions, then for each group checks that
    /// every destination is free and performs the bulk move. If any cell of
    /// a group is blocked, none of the group moves — this keeps the shape
    /// perfectly intact.
    pub fn move_ghosts(&mut self, gen: u8)
        requires
            old(self).wf(),
        ensures
            final(self).wf(),
            final(self)@ == groups_moved(old(self)@, gen),
            final(self)@.same_shape(old(self)@),
            final(self)@.census() == old(self)@.census(),
    {
        if gen % MOVE_DIVISOR != 0 {
            return;
        }
        let ghost_positions = self.collect_ghosts();
        if ghost_positions.len() == 0 {
            proof {
                assert forall|id: u8| is_absent(self@, id) by {
                    assert forall|x: int, y: int| !#[trigger] is_member(self@, id, x, y) by {
                        if is_member(self@, id, x, y) {
                            let j = choose|j: int|
                                0 <= j < ghost_positions@.len() && #[trigger] ghost_positions@[j]
                                    == (x as i32, y as i32, id);
                        }
                    }
                }
                lemma_move_groups_absent(self@, gen, 256);
            }
            return;
        }
        let ghost start = self@;
        let mut id: u16 = 0;
        while id < 256
            invariant
                self.wf(),
                0 <= id <= 256,
                self@ == move_groups(start, gen, id as nat),
                self@.same_shape(start),
                self@.census() == start.census(),
                lists_specters(ghost_positions@, self@, id as int),
            decreases 256 - id,
        {
            self.move_group_at(&ghost_positions, id as u8, gen);
            id = id + 1;
        }
    }
}

/// Where no group has a cell, moving the groups changes nothing.
pub proof fn lemma_move_groups_absent(g: GridView, generation: u8, n: nat)
    requires
        g.wf(),
        forall|id: u8| is_absent(g, id),
    ensures
        move_groups(g, generation, n) == g,
    decreases n,
{
    if n > 0 {
        lemma_move_groups_absent(g, generation, (n - 1) as nat);
        let id = (n - 1) as u8;
        let d = group_direction(generation, id);
        assert(is_absent(g, id));
        lemma_translate_absent(g, id, d.0, d.1, generation);
    }
}

/// One more entry relocated: the coordinates relocated are those that were
/// and that of the entry.
pub proof fn lemma_relocated_step(cells: Seq<(i32, i32)>, n: int, x: int, y: int)
    requires
        0 <= n < cells.len(),
    ensures
        relocated(cells, n + 1, x, y) == (relocated(cells, n, x, y) || (cells[n].0 == x
            && cells[n].1 == y)),
{
    if relocated(cells, n + 1, x, y) {
        let j = choose|j: int| 0 <= j < n + 1 && (#[trigger] cells[j]).0 == x && cells[j].1 == y;
        if j < n {
            assert(relocated(cells, n, x, y));
        }
    }
    if relocated(cells, n, x, y) {
        let j = choose|j: int| 0 <= j < n && (#[trigger] cells[j]).0 == x && cells[j].1 == y;
        assert(0 <= j < n + 1 && cells[j].0 == x && cells[j].1 == y);
    }
    if cells[n].0 == x && cells[n].1 == y {
        assert(0 <= n < n + 1 && cells[n].0 == x && cells[n].1 == y);
    }
}

/// Once every entry of a list of the group is relocated, the coordinates
/// relocated are those of the group's cells.
pub proof fn lemma_all_relocated(g: GridView, id: u8, cells: Seq<(i32, i32)>, x: int, y: int)
    requires
        g.wf(),
        g.width <= i32::MAX,
        g.height <= i32::MAX,
        lists_group(cells, g, id),
    ensures
        relocated(cells, cells.len() as int, x, y) == is_member(g, id, x, y),
{
    if relocated(cells, cells.len() as int, x, y) {
        let j = choose|j: int|
            0 <= j < cells.len() && (#[trigger] cells[j]).0 == x && cells[j].1 == y;
        assert(is_member(g, id, cells[j].0 as int, cells[j].1 as int));
    }
    if is_member(g, id, x, y) {
        assert(cells.contains((x as i32, y as i32)));
        let j = choose|j: int| 0 <= j < cells.len() && cells[j] == (x as i32, y as i32);
        assert(cells[j].0 == x && cells[j].1 == y);
    }
}

/// When the entries before the `n`-th of a furthest-first list have been
/// relocated, the `n`-th finds its own cell untouched, and in front of it
/// the cell that lay in front of its line of members.
pub proof fn lemma_next_in_line(
    g: GridView,
    id: u8,
    dx: int,
    dy: int,
    generation: u8,
    cells: Seq<(i32, i32)>,
    n: int,
)
    requires
        g.wf(),
        g.width <= i32::MAX,
        g.height <= i32::MAX,
        is_unit_step(dx, dy),
        can_move(g, id, dx, dy),
        lists_group(cells, g, id),
        is_descending(cells, dx, dy),
        0 <= n < cells.len(),
    ensures
        is_member(g, id, cells[n].0 as int, cells[n].1 as int),
        welcomes(g, id, cells[n].0 + dx, cells[n].1 + dy),
        partly_moved_cell(g, id, dx, dy, generation, cells, n, cells[n].0 as int, cells[n].1 as int)
            == g.get(cells[n].0 as int, cells[n].1 as int),
        partly_moved_cell(g, id, dx, dy, generation, cells, n, cells[n].0 + dx, cells[n].1 + dy)
            == g.get(
            chain_end(g, id, dx, dy, cells[n].0 + dx, cells[n].1 + dy).0,
            chain_end(g, id, dx, dy, cells[n].0 + dx, cells[n].1 + dy).1,
        ),
        g.get(
            chain_end(g, id, dx, dy, cells[n].0 + dx, cells[n].1 + dy).0,
            chain_end(g, id, dx, dy, cells[n].0 + dx, cells[n].1 + dy).1,
        ).species == Species::Empty,
{
    let mx = cells[n].0 as int;
    let my = cells[n].1 as int;
    assert(is_member(g, id, mx, my));
    assert(welcomes(g, id, mx + dx, my + dy));
    lemma_chain_end(g, id, dx, dy, mx + dx, my + dy);
    if relocated(cells, n, mx, my) {
        let j = choose|j: int| 0 <= j < n && (#[trigger] cells[j]).0 == mx && cells[j].1 == my;
        assert(cells[j] == cells[n]);
        assert(false);
    }
    if relocated(cells, n, mx - dx, my - dy) {
        let j = choose|j: int|
            0 <= j < n && (#[trigger] cells[j]).0 == mx - dx && cells[j].1 == my - dy;
        assert(score(cells[j], dx, dy) >= score(cells[n], dx, dy));
        assert(false);
    }
    if is_member(g, id, mx + dx, my + dy) {
        assert(cells.contains(((mx + dx) as i32, (my + dy) as i32)));
        let j = choose|j: int|
            0 <= j < cells.len() && cells[j] == ((mx + dx) as i32, (my + dy) as i32);
        assert(score(cells[j], dx, dy) > score(cells[n], dx, dy));
        if j > n {
            assert(score(cells[n], dx, dy) >= score(cells[j], dx, dy));
        }
        assert(j < n);
        assert(cells[j].0 == mx + dx && cells[j].1 == my + dy);
        assert(relocated(cells, n, mx + dx, my + dy));
    } else {
        if relocated(cells, n, mx + dx, my + dy) {
            let j = choose|j: int|
                0 <= j < n && (#[trigger] cells[j]).0 == mx + dx && cells[j].1 == my + dy;
            assert(is_member(g, id, cells[j].0 as int, cells[j].1 as int));
            assert(false);
        }
    }
}

} // verus!
