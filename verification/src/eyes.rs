//! Eye placement for specter groups: within each eye zone of a group a
//! block of cells is shown as the eye, shifted toward the cursor.
//!
//! Only the `rb` byte of eye-zone cells is ever written: positions, species,
//! group ids and clocks stay as they are.

use vstd::prelude::*;
use crate::cell::{Cell, Species};
use crate::elements::ghost::{RB_EYE, RB_EYE_ZONE};
use crate::grid::{lemma_coords_of_index, lemma_index_in_range, lemma_set_get, Grid, GridView};

verus! {

/// A specter cell as the eye placement sees it: column, row, group id and
/// role byte.
pub type Sighting = (i32, i32, u8, u8);

/// The bounding box of a cluster of cells.
#[derive(Clone, Copy)]
pub struct Zone {
    pub min_x: i32,
    pub max_x: i32,
    pub min_y: i32,
    pub max_y: i32,
}

/// The role byte marks a cell of an eye zone, shown as eye or as body.
pub open spec fn is_eye_role(rb: u8) -> bool {
    rb == RB_EYE_ZONE || rb == RB_EYE
}

/// A specter cell that belongs to an eye zone.
pub open spec fn is_eye_cell(cell: Cell) -> bool {
    cell.species == Species::Specter && is_eye_role(cell.rb)
}

/// The specter cells among the first `n` cells of the buffer, in buffer
/// order.
pub open spec fn specters(g: GridView, n: nat) -> Seq<Sighting>
    decreases n,
{
    if n == 0 {
        Seq::empty()
    } else {
        let rest = specters(g, (n - 1) as nat);
        let cell = g.cells[n - 1];
        if cell.species == Species::Specter {
            rest.push((g.col_of(n - 1) as i32, g.row_of(n - 1) as i32, cell.ra, cell.rb))
        } else {
            rest
        }
    }
}

/// The sum of the columns, the sum of the rows and the number of the cells
/// of group `id` among the first `n` sightings.
pub open spec fn tally(s: Seq<Sighting>, id: u8, n: nat) -> (int, int, int)
    decreases n,
{
    if n == 0 {
        (0, 0, 0)
    } else {
        let t = tally(s, id, (n - 1) as nat);
        if s[n - 1].2 == id {
            (t.0 + s[n - 1].0, t.1 + s[n - 1].1, t.2 + 1)
        } else {
            t
        }
    }
}

/// The centre of group `id`: the mean column and the mean row of its
/// cells, rounded down.
pub open spec fn centroid(s: Seq<Sighting>, id: u8) -> (int, int) {
    let t = tally(s, id, s.len());
    (t.0 / t.2, t.1 / t.2)
}

/// The sign of `v`: -1, 0 or 1.
pub open spec fn signum(v: int) -> int {
    if v > 0 {
        1
    } else if v < 0 {
        -1
    } else {
        0
    }
}

/// The direction in which a group with the given centre looks: toward the
/// cursor, or nowhere without one.
pub open spec fn look_toward(center: (int, int), cursor: Option<(i32, i32)>) -> (int, int) {
    match cursor {
        Some(at) => (signum(at.0 - center.0), signum(at.1 - center.1)),
        None => (0, 0),
    }
}

/// The sighting is an eye-zone cell of group `id` on the given side of the
/// centre column `cx`: right of it, or left of it and on it.
pub open spec fn in_cluster(e: Sighting, id: u8, cx: int, right: bool) -> bool {
    e.2 == id && is_eye_role(e.3) && ((e.0 > cx) == right)
}

/// The box `zone` widened to hold `(x, y)`.
pub open spec fn widened(zone: Option<Zone>, x: i32, y: i32) -> Zone {
    match zone {
        None => Zone { min_x: x, max_x: x, min_y: y, max_y: y },
        Some(z) => Zone {
            min_x: if x < z.min_x { x } else { z.min_x },
            max_x: if x > z.max_x { x } else { z.max_x },
            min_y: if y < z.min_y { y } else { z.min_y },
            max_y: if y > z.max_y { y } else { z.max_y },
        },
    }
}

/// The bounding box of the eye cluster of group `id` on one side of the
/// centre column, over the first `n` sightings; `None` if it has no cell.
pub open spec fn zone_of(s: Seq<Sighting>, id: u8, cx: int, right: bool, n: nat) -> Option<Zone>
    decreases n,
{
    if n == 0 {
        None
    } else {
        let rest = zone_of(s, id, cx, right, (n - 1) as nat);
        if in_cluster(s[n - 1], id, cx, right) {
            Some(widened(rest, s[n - 1].0, s[n - 1].1))
        } else {
            rest
        }
    }
}

/// Half of `v`, rounded toward zero.
pub open spec fn half_toward_zero(v: int) -> int {
    if v >= 0 {
        v / 2
    } else {
        -((-v) / 2)
    }
}

/// `v` raised to at least `lo`, then lowered to at most `hi`.
pub open spec fn fitted(v: int, lo: int, hi: int) -> int {
    let raised = if v < lo { lo } else { v };
    if raised > hi {
        hi
    } else {
        raised
    }
}

/// The top-left corner of the eye block in `zone`: two columns by three
/// rows, centred in the zone, shifted one cell in the look direction and
/// kept inside the zone as far as the zone has room.
pub open spec fn eye_corner(zone: Zone, look: (int, int)) -> (int, int) {
    let zone_w = zone.max_x - zone.min_x + 1;
    let zone_h = zone.max_y - zone.min_y + 1;
    let center_x = zone.min_x + half_toward_zero(zone_w - 2);
    let center_y = zone.min_y + half_toward_zero(zone_h - 3);
    (
        fitted(center_x + look.0, zone.min_x as int, zone.max_x - 1),
        fitted(center_y + look.1, zone.min_y as int, zone.max_y - 2),
    )
}

/// `(x, y)` lies in the eye block with the given top-left corner.
pub open spec fn in_block(corner: (int, int), x: int, y: int) -> bool {
    corner.0 <= x <= corner.0 + 1 && corner.1 <= y <= corner.1 + 2
}

/// The role byte that the eye-zone cell of group `id` at `(x, y)` is given:
/// eye inside the eye block of its cluster, eye zone outside it.
pub open spec fn eye_tag(
    s: Seq<Sighting>,
    cursor: Option<(i32, i32)>,
    id: u8,
    x: int,
    y: int,
) -> u8 {
    let center = centroid(s, id);
    let look = look_toward(center, cursor);
    match zone_of(s, id, center.0, x > center.0, s.len()) {
        Some(zone) => if in_block(eye_corner(zone, look), x, y) {
            RB_EYE
        } else {
            RB_EYE_ZONE
        },
        None => RB_EYE_ZONE,
    }
}

/// The cell at `(x, y)` once the eyes of the groups with an id below
/// `groups` are placed: an eye-zone cell of such a group has its role byte
/// set anew, every other cell is as it was.
pub open spec fn eyed_cell(
    g: GridView,
    cursor: Option<(i32, i32)>,
    groups: int,
    x: int,
    y: int,
) -> Cell {
    let cell = g.get(x, y);
    if is_eye_cell(cell) && cell.ra < groups {
        Cell { rb: eye_tag(specters(g, g.cells.len()), cursor, cell.ra, x, y), ..cell }
    } else {
        cell
    }
}

/// The grid once the eyes of the groups with an id below `groups` are
/// placed.
pub open spec fn eyes_placed(g: GridView, cursor: Option<(i32, i32)>, groups: int) -> GridView {
    GridView {
        cells: Seq::new(
            g.cells.len(),
            |i: int| eyed_cell(g, cursor, groups, g.col_of(i), g.row_of(i)),
        ),
        ..g
    }
}

/// The grid after the eyes of every group are placed.
pub open spec fn eyes_spec(g: GridView, cursor: Option<(i32, i32)>) -> GridView {
    eyes_placed(g, cursor, 256)
}

/// The coordinates of the grid fit the signed coordinate type.
pub open spec fn fits(g: GridView) -> bool {
    g.wf() && g.width <= i32::MAX && g.height <= i32::MAX
}

/// Every sighting is a specter cell of the grid, with its group id and
/// role byte.
pub proof fn lemma_specters_sound(g: GridView, n: nat, j: int)
    requires
        fits(g),
        n <= g.cells.len(),
        0 <= j < specters(g, n).len(),
    ensures
        g.in_bounds(specters(g, n)[j].0 as int, specters(g, n)[j].1 as int),
        g.get(specters(g, n)[j].0 as int, specters(g, n)[j].1 as int).species == Species::Specter,
        g.get(specters(g, n)[j].0 as int, specters(g, n)[j].1 as int).ra == specters(g, n)[j].2,
        g.get(specters(g, n)[j].0 as int, specters(g, n)[j].1 as int).rb == specters(g, n)[j].3,
    decreases n,
{
    if n > 0 {
        let rest = specters(g, (n - 1) as nat);
        lemma_coords_of_index(g, n - 1);
        if j < rest.len() {
            lemma_specters_sound(g, (n - 1) as nat, j);
        }
    }
}

/// Every specter cell of the grid is sighted.
pub proof fn lemma_specters_complete(g: GridView, n: nat, x: int, y: int)
    requires
        fits(g),
        n <= g.cells.len(),
        g.in_bounds(x, y),
        g.index(x, y) < n,
        g.get(x, y).species == Species::Specter,
    ensures
        exists|j: int|
            0 <= j < specters(g, n).len() && (#[trigger] specters(g, n)[j]).0 == x && specters(
                g,
                n,
            )[j].1 == y,
    decreases n,
{
    let rest = specters(g, (n - 1) as nat);
    lemma_coords_of_index(g, n - 1);
    if g.index(x, y) == n - 1 {
        crate::grid::lemma_index_injective(g, x, y, g.col_of(n - 1), g.row_of(n - 1));
        let j = rest.len() as int;
        assert(specters(g, n)[j].0 == x && specters(g, n)[j].1 == y);
    } else {
        lemma_specters_complete(g, (n - 1) as nat, x, y);
        let j = choose|j: int| 0 <= j < rest.len() && (#[trigger] rest[j]).0 == x && rest[j].1 == y;
        assert(specters(g, n)[j] == rest[j]);
    }
}

/// The placed grid keeps the shape, and its cells are those that
/// `eyed_cell` names.
pub proof fn lemma_eyes_placed_get(
    g: GridView,
    cursor: Option<(i32, i32)>,
    groups: int,
    x: int,
    y: int,
)
    requires
        g.wf(),
    ensures
        eyes_placed(g, cursor, groups).wf(),
        eyes_placed(g, cursor, groups).same_shape(g),
        g.in_bounds(x, y) ==> eyes_placed(g, cursor, groups).get(x, y) == eyed_cell(
            g,
            cursor,
            groups,
            x,
            y,
        ),
{
    if g.in_bounds(x, y) {
        lemma_index_in_range(g, x, y);
        let i = g.index(x, y);
        lemma_coords_of_index(g, i);
        crate::grid::lemma_index_injective(g, x, y, g.col_of(i), g.row_of(i));
    }
}

/// Placing the eyes changes nothing but the role byte of eye-zone cells,
/// and an eye-zone cell stays one.
pub proof fn lemma_eyes_only_roles(g: GridView, cursor: Option<(i32, i32)>, i: int)
    requires
        g.wf(),
        0 <= i < g.cells.len(),
    ensures
        eyes_spec(g, cursor).cells[i].species == g.cells[i].species,
        eyes_spec(g, cursor).cells[i].ra == g.cells[i].ra,
        eyes_spec(g, cursor).cells[i].clock == g.cells[i].clock,
        !is_eye_cell(g.cells[i]) ==> eyes_spec(g, cursor).cells[i] == g.cells[i],
        is_eye_cell(g.cells[i]) ==> is_eye_cell(eyes_spec(g, cursor).cells[i]),
{
    lemma_coords_of_index(g, i);
}

/// A cluster that holds one of the first `n` sightings has a bounding box.
pub proof fn lemma_zone_some(s: Seq<Sighting>, id: u8, cx: int, right: bool, n: nat, j: int)
    requires
        0 <= j < n <= s.len(),
        in_cluster(s[j], id, cx, right),
    ensures
        zone_of(s, id, cx, right, n) is Some,
    decreases n,
{
    if j < n - 1 {
        lemma_zone_some(s, id, cx, right, (n - 1) as nat, j);
    }
}

/// The sign of `v`: -1, 0 or 1.
fn sign_of(v: i64) -> (sign: i32)
    ensures
        sign == signum(v as int),
{
    if v > 0 {
        1
    } else if v < 0 {
        -1
    } else {
        0
    }
}

/// Half of `v`, rounded toward zero.
fn halved(v: i32) -> (half: i32)
    requires
        v > i32::MIN,
    ensures
        half == half_toward_zero(v as int),
{
    if v >= 0 {
        v / 2
    } else {
        -((-v) / 2)
    }
}

/// `v` raised to at least `lo`, then lowered to at most `hi`.
fn fit(v: i32, lo: i32, hi: i32) -> (r: i32)
    ensures
        r == fitted(v as int, lo as int, hi as int),
{
    let raised = if v < lo {
        lo
    } else {
        v
    };
    if raised > hi {
        hi
    } else {
        raised
    }
}

/// The sums of columns and rows, and the number, of the cells of a group.
fn tally_group(seen: &Vec<Sighting>, id: u8) -> (t: (i128, i128, i128))
    requires
        forall|j: int| 0 <= j < seen@.len() ==> 0 <= (#[trigger] seen@[j]).0 && 0 <= seen@[j].1,
    ensures
        (t.0 as int, t.1 as int, t.2 as int) == tally(seen@, id, seen@.len()),
        0 <= t.0 <= t.2 * 0x7fff_ffff,
        0 <= t.1 <= t.2 * 0x7fff_ffff,
        0 <= t.2 <= seen@.len(),
        t.2 > 0 <==> exists|j: int| 0 <= j < seen@.len() && (#[trigger] seen@[j]).2 == id,
{
    let mut sum_x: i128 = 0;
    let mut sum_y: i128 = 0;
    let mut count: i128 = 0;
    let mut k: usize = 0;
    while k < seen.len()
        invariant
            0 <= k <= seen@.len(),
            forall|j: int| 0 <= j < seen@.len() ==> 0 <= (#[trigger] seen@[j]).0 && 0 <= seen@[j].1,
            (sum_x as int, sum_y as int, count as int) == tally(seen@, id, k as nat),
            0 <= sum_x <= count * 0x7fff_ffff,
            0 <= sum_y <= count * 0x7fff_ffff,
            0 <= count <= k,
            count > 0 <==> exists|j: int| 0 <= j < k && (#[trigger] seen@[j]).2 == id,
        decreases seen@.len() - k,
    {
        let e = seen[k];
        if e.2 == id {
            sum_x = sum_x + e.0 as i128;
            sum_y = sum_y + e.1 as i128;
            count = count + 1;
        }
        k = k + 1;
    }
    (sum_x, sum_y, count)
}

/// The bounding box of the eye cluster of a group on one side of the
/// centre column.
fn find_zone(seen: &Vec<Sighting>, id: u8, cx: i32, right: bool) -> (zone: Option<Zone>)
    requires
        forall|j: int|
            0 <= j < seen@.len() ==> 0 <= (#[trigger] seen@[j]).0 < i32::MAX && 0 <= seen@[j].1
                < i32::MAX,
    ensures
        zone == zone_of(seen@, id, cx as int, right, seen@.len()),
        match zone {
            Some(z) => 0 <= z.min_x <= z.max_x < i32::MAX && 0 <= z.min_y <= z.max_y < i32::MAX,
            None => true,
        },
{
    let mut zone: Option<Zone> = None;
    let mut k: usize = 0;
    while k < seen.len()
        invariant
            0 <= k <= seen@.len(),
            forall|j: int|
                0 <= j < seen@.len() ==> 0 <= (#[trigger] seen@[j]).0 < i32::MAX && 0 <= seen@[j].1
                    < i32::MAX,
            zone == zone_of(seen@, id, cx as int, right, k as nat),
            match zone {
                Some(z) => 0 <= z.min_x <= z.max_x < i32::MAX && 0 <= z.min_y <= z.max_y
                    < i32::MAX,
                None => true,
            },
        decreases seen@.len() - k,
    {
        let e = seen[k];
        if e.2 == id && (e.3 == RB_EYE_ZONE || e.3 == RB_EYE) && ((e.0 > cx) == right) {
            zone = Some(
                match zone {
                    None => Zone { min_x: e.0, max_x: e.0, min_y: e.1, max_y: e.1 },
                    Some(z) => Zone {
                        min_x: if e.0 < z.min_x {
                            e.0
                        } else {
                            z.min_x
                        },
                        max_x: if e.0 > z.max_x {
                            e.0
                        } else {
                            z.max_x
                        },
                        min_y: if e.1 < z.min_y {
                            e.1
                        } else {
                            z.min_y
                        },
                        max_y: if e.1 > z.max_y {
                            e.1
                        } else {
                            z.max_y
                        },
                    },
                },
            );
        }
        k = k + 1;
    }
    zone
}

/// The top-left corner of the eye block in a zone, for a look direction.
fn corner_of(zone: Zone, look_dx: i32, look_dy: i32) -> (corner: (i32, i32))
    requires
        0 <= zone.min_x <= zone.max_x < i32::MAX,
        0 <= zone.min_y <= zone.max_y < i32::MAX,
        -1 <= look_dx <= 1,
        -1 <= look_dy <= 1,
    ensures
        (corner.0 as int, corner.1 as int) == eye_corner(zone, (look_dx as int, look_dy as int)),
        -2 <= corner.0 < i32::MAX - 1,
        -3 <= corner.1 < i32::MAX - 2,
{
    let zone_w: i32 = zone.max_x - zone.min_x + 1;
    let zone_h: i32 = zone.max_y - zone.min_y + 1;

    // Eye block is 2×3. Compute its top-left corner within the zone.
    // Center of the zone, then offset by look direction, clamped to fit.
    let center_x: i32 = zone.min_x + halved(zone_w - 2);
    let center_y: i32 = zone.min_y + halved(zone_h - 3);
    (
        fit(center_x + look_dx, zone.min_x, zone.max_x - 1),
        fit(center_y + look_dy, zone.min_y, zone.max_y - 2),
    )
}

/// `(x, y)` is among the first `k` sightings.
pub open spec fn sighted(s: Seq<Sighting>, k: int, x: int, y: int) -> bool {
    exists|j: int| 0 <= j < k && (#[trigger] s[j]).0 == x && s[j].1 == y
}

/// The cell at `(x, y)` once the eyes of the groups below `id` are placed
/// and, of group `id`, those among the first `k` sightings.
pub open spec fn partly_eyed_cell(
    g: GridView,
    cursor: Option<(i32, i32)>,
    id: u8,
    k: int,
    x: int,
    y: int,
) -> Cell {
    let cell = g.get(x, y);
    let s = specters(g, g.cells.len());
    if is_eye_cell(cell) && (cell.ra < id || (cell.ra == id && sighted(s, k, x, y))) {
        Cell { rb: eye_tag(s, cursor, cell.ra, x, y), ..cell }
    } else {
        cell
    }
}

/// One more sighting: the coordinates sighted are those that were and that
/// of the sighting.
pub proof fn lemma_sighted_step(s: Seq<Sighting>, k: int, x: int, y: int)
    requires
        0 <= k < s.len(),
    ensures
        sighted(s, k + 1, x, y) == (sighted(s, k, x, y) || (s[k].0 == x && s[k].1 == y)),
{
    if sighted(s, k + 1, x, y) {
        let j = choose|j: int| 0 <= j < k + 1 && (#[trigger] s[j]).0 == x && s[j].1 == y;
        if j < k {
            assert(sighted(s, k, x, y));
        }
    }
    if sighted(s, k, x, y) {
        let j = choose|j: int| 0 <= j < k && (#[trigger] s[j]).0 == x && s[j].1 == y;
        assert(0 <= j < k + 1 && s[j].0 == x && s[j].1 == y);
    }
    if s[k].0 == x && s[k].1 == y {
        assert(0 <= k < k + 1 && s[k].0 == x && s[k].1 == y);
    }
}

/// With every sighting looked at, group `id` is done too.
pub proof fn lemma_partly_eyed_end(g: GridView, cursor: Option<(i32, i32)>, id: u8, x: int, y: int)
    requires
        fits(g),
        g.in_bounds(x, y),
    ensures
        partly_eyed_cell(g, cursor, id, specters(g, g.cells.len()).len() as int, x, y) == eyed_cell(
            g,
            cursor,
            id + 1,
            x,
            y,
        ),
{
    if g.get(x, y).species == Species::Specter {
        lemma_index_in_range(g, x, y);
        lemma_specters_complete(g, g.cells.len(), x, y);
    }
}

impl Grid {
    /// Collect the specter cells with their group id and role, in buffer
    /// order.
    fn sight_specters(&self) -> (seen: Vec<Sighting>)
        requires
            self.wf(),
        ensures
            seen@ == specters(self@, self.cells@.len()),
    {
        let mut seen: Vec<Sighting> = Vec::new();
        let mut i: usize = 0;
        while i < self.cells.len()
            invariant
                self.wf(),
                0 <= i <= self.cells@.len(),
                seen@ == specters(self@, i as nat),
            decreases self.cells@.len() - i,
        {
            let cell = self.cells[i];
            if cell.species == Species::Specter {
                proof {
                    lemma_coords_of_index(self@, i as int);
                }
                let x: i32 = (i % self.width) as i32;
                let y: i32 = (i / self.width) as i32;
                seen.push((x, y, cell.ra, cell.rb));
            }
            i = i + 1;
        }
        seen
    }

    /// Place the eyes of one group: within each of its two eye clusters
    /// the cells of the eye block get `RB_EYE`, the rest `RB_EYE_ZONE`.
    fn place_group_eyes(
        &mut self,
        Ghost(g): Ghost<GridView>,
        seen: &Vec<Sighting>,
        id: u8,
        cursor: Option<(i32, i32)>,
    )
        requires
            old(self).wf(),
            fits(g),
            seen@ == specters(g, g.cells.len()),
            old(self)@ == eyes_placed(g, cursor, id as int),
        ensures
            final(self).wf(),
            final(self)@ == eyes_placed(g, cursor, id + 1),
    {
        let ghost s = seen@;
        proof {
            assert forall|j: int| 0 <= j < s.len() implies 0 <= (#[trigger] s[j]).0 < i32::MAX && 0
                <= s[j].1 < i32::MAX by {
                lemma_specters_sound(g, g.cells.len(), j);
            }
            assert forall|x: int, y: int| g.in_bounds(x, y) implies self@.get(x, y)
                == #[trigger] partly_eyed_cell(g, cursor, id, 0, x, y) by {
                lemma_eyes_placed_get(g, cursor, id as int, x, y);
            }
            lemma_eyes_placed_get(g, cursor, id as int, 0, 0);
        }
        let (sum_x, sum_y, count) = tally_group(seen, id);
        let mut k: usize = 0;
        if count == 0 {
            k = seen.len();
            proof {
                assert forall|x: int, y: int| g.in_bounds(x, y) implies self@.get(x, y)
                    == #[trigger] partly_eyed_cell(g, cursor, id, k as int, x, y) by {
                    let _ = partly_eyed_cell(g, cursor, id, 0, x, y);
                    if sighted(s, k as int, x, y) {
                        let j = choose|j: int|
                            0 <= j < k && (#[trigger] s[j]).0 == x && s[j].1 == y;
                        lemma_specters_sound(g, g.cells.len(), j);
                    }
                }
            }
        } else {
            // Compute group center.
            assert(sum_x / count <= 0x7fff_ffff && sum_y / count <= 0x7fff_ffff
                && sum_x / count >= 0 && sum_y / count >= 0) by (nonlinear_arith)
                requires
                    count > 0,
                    0 <= sum_x <= count * 0x7fff_ffff,
                    0 <= sum_y <= count * 0x7fff_ffff,
            ;
            let cx: i32 = (sum_x / count) as i32;
            let cy: i32 = (sum_y / count) as i32;

            // Determine look direction: cursor if present, else center (neutral).
            let (look_dx, look_dy): (i32, i32) = match cursor {
                Some((mx, my)) => (sign_of(mx as i64 - cx as i64), sign_of(my as i64 - cy as i64)),
                None => (0, 0),
            };

            // Bounding boxes of the left and right eye clusters, and in
            // each the corner of the eye block.
            let left_corner: Option<(i32, i32)> = match find_zone(seen, id, cx, false) {
                Some(zone) => Some(corner_of(zone, look_dx, look_dy)),
                None => None,
            };
            let right_corner: Option<(i32, i32)> = match find_zone(seen, id, cx, true) {
                Some(zone) => Some(corner_of(zone, look_dx, look_dy)),
                None => None,
            };

            // Mark cells: eye positions get RB_EYE, rest get RB_EYE_ZONE.
            while k < seen.len()
                invariant
                    self.wf(),
                    fits(g),
                    self@.same_shape(g),
                    s == seen@,
                    s == specters(g, g.cells.len()),
                    0 <= k <= s.len(),
                    (cx as int, cy as int) == centroid(s, id),
                    (look_dx as int, look_dy as int) == look_toward(centroid(s, id), cursor),
                    match left_corner {
                        Some(c) => zone_of(s, id, cx as int, false, s.len()) is Some && (
                            c.0 as int,
                            c.1 as int,
                        ) == eye_corner(
                            zone_of(s, id, cx as int, false, s.len()).unwrap(),
                            (look_dx as int, look_dy as int),
                        ) && -2 <= c.0 < i32::MAX - 1 && -3 <= c.1 < i32::MAX - 2,
                        None => zone_of(s, id, cx as int, false, s.len()) is None,
                    },
                    match right_corner {
                        Some(c) => zone_of(s, id, cx as int, true, s.len()) is Some && (
                            c.0 as int,
                            c.1 as int,
                        ) == eye_corner(
                            zone_of(s, id, cx as int, true, s.len()).unwrap(),
                            (look_dx as int, look_dy as int),
                        ) && -2 <= c.0 < i32::MAX - 1 && -3 <= c.1 < i32::MAX - 2,
                        None => zone_of(s, id, cx as int, true, s.len()) is None,
                    },
                    forall|x: int, y: int|
                        g.in_bounds(x, y) ==> self@.get(x, y) == #[trigger] partly_eyed_cell(
                            g,
                            cursor,
                            id,
                            k as int,
                            x,
                            y,
                        ),
                decreases s.len() - k,
            {
                let e = seen[k];
                let ghost cur = self@;
                proof {
                    lemma_specters_sound(g, g.cells.len(), k as int);
                    let _ = partly_eyed_cell(g, cursor, id, k as int, e.0 as int, e.1 as int);
                }
                if e.2 == id && (e.3 == RB_EYE_ZONE || e.3 == RB_EYE) {
                    let corner = if e.0 > cx {
                        right_corner
                    } else {
                        left_corner
                    };
                    proof {
                        lemma_zone_some(s, id, cx as int, e.0 > cx, s.len(), k as int);
                    }
                    match corner {
                        Some(c) => {
                            let mut cell = self.get(e.0, e.1);
                            cell.rb = if c.0 <= e.0 && e.0 <= c.0 + 1 && c.1 <= e.1 && e.1 <= c.1
                                + 2 {
                                RB_EYE
                            } else {
                                RB_EYE_ZONE
                            };
                            self.set(e.0, e.1, cell);
                            proof {
                                assert(cell.rb == eye_tag(s, cursor, id, e.0 as int, e.1 as int));
                                assert forall|x: int, y: int| g.in_bounds(x, y) implies self@.get(
                                    x,
                                    y,
                                ) == #[trigger] partly_eyed_cell(g, cursor, id, k + 1, x, y) by {
                                    lemma_set_get(cur, e.0 as int, e.1 as int, cell, x, y);
                                    lemma_sighted_step(s, k as int, x, y);
                                    let _ = partly_eyed_cell(g, cursor, id, k as int, x, y);
                                }
                            }
                        },
                        None => {},
                    }
                } else {
                    proof {
                        assert forall|x: int, y: int| g.in_bounds(x, y) implies self@.get(x, y)
                            == #[trigger] partly_eyed_cell(g, cursor, id, k + 1, x, y) by {
                            lemma_sighted_step(s, k as int, x, y);
                            let _ = partly_eyed_cell(g, cursor, id, k as int, x, y);
                        }
                    }
                }
                k = k + 1;
            }
        }
        proof {
            let done = eyes_placed(g, cursor, id + 1);
            assert forall|i: int| 0 <= i < g.cells.len() implies self@.cells[i] == done.cells[i] by {
                lemma_coords_of_index(g, i);
                lemma_coords_of_index(self@, i);
                lemma_partly_eyed_end(g, cursor, id, g.col_of(i), g.row_of(i));
                let _ = partly_eyed_cell(
                    g,
                    cursor,
                    id,
                    s.len() as int,
                    g.col_of(i),
                    g.row_of(i),
                );
            }
            assert(self@.cells =~= done.cells);
        }
    }

    /// Update specter eye cells so dark eyes shift toward the cursor.
    ///
    /// Each group has two eye zones (left/right of center). Within each
    /// zone, a block of cells is marked as active eyes (`RB_EYE`),
    /// positioned toward the look direction. The rest of the zone renders
    /// as body color (`RB_EYE_ZONE`).
    pub fn update_ghost_eyes(&mut self, cursor: Option<(i32, i32)>)
        requires
            old(self).wf(),
        ensures
            final(self).wf(),
            final(self)@ == eyes_spec(old(self)@, cursor),
    {
        let ghost g = self@;
        let seen = self.sight_specters();
        proof {
            assert forall|i: int| 0 <= i < g.cells.len() implies g.cells[i] == eyes_placed(
                g,
                cursor,
                0,
            ).cells[i] by {
                lemma_coords_of_index(g, i);
            }
            assert(g.cells =~= eyes_placed(g, cursor, 0).cells);
        }
        if seen.len() == 0 {
            proof {
                assert forall|i: int| 0 <= i < g.cells.len() implies g.cells[i] == eyes_spec(
                    g,
                    cursor,
                ).cells[i] by {
                    lemma_coords_of_index(g, i);
                    if g.cells[i].species == Species::Specter {
                        lemma_specters_complete(g, g.cells.len(), g.col_of(i), g.row_of(i));
                    }
                }
                assert(g.cells =~= eyes_spec(g, cursor).cells);
            }
            return;
        }
        let mut id: u16 = 0;
        while id < 256
            invariant
                self.wf(),
                fits(g),
                0 <= id <= 256,
                seen@ == specters(g, g.cells.len()),
                self@ == eyes_placed(g, cursor, id as int),
            decreases 256 - id,
        {
            self.place_group_eyes(Ghost(g), &seen, id as u8, cursor);
            id = id + 1;
        }
    }
}

} // verus!
