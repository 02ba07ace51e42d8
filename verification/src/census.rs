//! Counting the cells of each species, and the writes that keep the counts.

use vstd::prelude::*;
use vstd::multiset::Multiset;
use vstd::seq_lib::{to_multiset_update, to_multiset_contains};
use crate::cell::{Cell, Species};
use crate::grid::{lemma_index_in_range, lemma_set_get, GridView};

verus! {

impl GridView {
    /// The species of every cell, in buffer order.
    pub open spec fn species_seq(self) -> Seq<Species> {
        self.cells.map_values(|c: Cell| c.species)
    }

    /// How many cells of each species the grid holds.
    pub open spec fn census(self) -> Multiset<Species> {
        self.species_seq().to_multiset()
    }

    /// No cell of the grid is of species `s`.
    pub open spec fn lacks(self, s: Species) -> bool {
        forall|i: int| 0 <= i < self.cells.len() ==> (#[trigger] self.cells[i]).species != s
    }
}

/// A species that some cell has is counted at least once, and a species
/// that the grid lacks is counted zero times.
pub proof fn lemma_census_counts(g: GridView, s: Species)
    ensures
        g.lacks(s) <==> g.census().count(s) == 0,
{
    let seq = g.species_seq();
    to_multiset_contains(seq, s);
    if g.lacks(s) {
        if seq.contains(s) {
            let i = choose|i: int| 0 <= i < seq.len() && seq[i] == s;
            assert(g.cells[i].species == s);
        }
    } else {
        let i = choose|i: int| 0 <= i < g.cells.len() && (#[trigger] g.cells[i]).species == s;
        assert(seq[i] == s);
    }
}

/// A write inside the grid takes one cell of the old species out of the
/// count and puts one of the new species in.
pub proof fn lemma_set_census(g: GridView, x: int, y: int, cell: Cell)
    requires
        g.wf(),
        g.in_bounds(x, y),
    ensures
        g.set(x, y, cell).census() == g.census().insert(cell.species).remove(g.get(x, y).species),
        g.census().count(g.get(x, y).species) > 0,
{
    lemma_index_in_range(g, x, y);
    let i = g.index(x, y);
    assert(g.set(x, y, cell).species_seq() =~= g.species_seq().update(i, cell.species));
    to_multiset_update(g.species_seq(), i, cell.species);
    to_multiset_contains(g.species_seq(), g.get(x, y).species);
    assert(g.species_seq()[i] == g.get(x, y).species);
}

/// A write that keeps the species of the cell it replaces keeps the counts.
pub proof fn lemma_same_species_census(g: GridView, x: int, y: int, cell: Cell)
    requires
        g.wf(),
        cell.species == g.get(x, y).species,
    ensures
        g.set(x, y, cell).census() == g.census(),
{
    if g.in_bounds(x, y) {
        lemma_set_census(g, x, y, cell);
        assert(g.census().insert(cell.species).remove(cell.species) =~= g.census());
    }
}

/// Two writes that exchange the species of two distinct cells keep the
/// counts.
pub proof fn lemma_exchange_census(
    g: GridView,
    x1: int,
    y1: int,
    c1: Cell,
    x2: int,
    y2: int,
    c2: Cell,
)
    requires
        g.wf(),
        g.in_bounds(x1, y1),
        g.in_bounds(x2, y2),
        x1 != x2 || y1 != y2,
        c1.species == g.get(x2, y2).species,
        c2.species == g.get(x1, y1).species,
    ensures
        g.set(x1, y1, c1).set(x2, y2, c2).census() == g.census(),
{
    let s1 = g.get(x1, y1).species;
    let s2 = g.get(x2, y2).species;
    let g1 = g.set(x1, y1, c1);
    lemma_set_census(g, x1, y1, c1);
    lemma_set_census(g, x2, y2, c2);
    lemma_set_get(g, x1, y1, c1, x2, y2);
    lemma_set_census(g1, x2, y2, c2);
    assert(g.census().insert(s2).remove(s1).insert(s1).remove(s2) =~= g.census());
}

/// An exchange of two cells inside the grid keeps the counts.
pub proof fn lemma_swap_into_census(g: GridView, x: int, y: int, tx: int, ty: int, generation: u8)
    requires
        g.wf(),
        g.in_bounds(x, y),
        g.in_bounds(tx, ty),
    ensures
        g.swap_into(x, y, tx, ty, generation).census() == g.census(),
{
    let c1 = g.get(tx, ty).stamped(generation);
    let c2 = g.get(x, y).stamped(generation);
    if x != tx || y != ty {
        lemma_exchange_census(g, x, y, c1, tx, ty, c2);
    } else {
        lemma_same_species_census(g, x, y, c1);
        lemma_set_get(g, x, y, c1, tx, ty);
        lemma_same_species_census(g.set(x, y, c1), tx, ty, c2);
    }
}

/// An exchange of two cells of one species keeps the counts, wherever the
/// two lie.
pub proof fn lemma_swap_alike_census(g: GridView, x: int, y: int, tx: int, ty: int, generation: u8)
    requires
        g.wf(),
        g.get(x, y).species == g.get(tx, ty).species,
    ensures
        g.swap_into(x, y, tx, ty, generation).census() == g.census(),
{
    let c1 = g.get(tx, ty).stamped(generation);
    let c2 = g.get(x, y).stamped(generation);
    lemma_same_species_census(g, x, y, c1);
    lemma_set_get(g, x, y, c1, tx, ty);
    lemma_same_species_census(g.set(x, y, c1), tx, ty, c2);
}

/// A relocation into an Empty cell elsewhere in the grid, of a cell of the
/// species that leaves, keeps the counts.
pub proof fn lemma_relocate_census(
    g: GridView,
    x: int,
    y: int,
    tx: int,
    ty: int,
    cell: Cell,
    generation: u8,
)
    requires
        g.wf(),
        g.in_bounds(x, y),
        x != tx || y != ty,
        g.get(tx, ty).species == Species::Empty,
        cell.species == g.get(x, y).species,
    ensures
        g.relocate(x, y, tx, ty, cell, generation).census() == g.census(),
{
    lemma_exchange_census(
        g,
        x,
        y,
        Cell::of(Species::Empty).stamped(generation),
        tx,
        ty,
        cell.stamped(generation),
    );
}

} // verus!
