//! Cell and Species types for the simulation grid.

use vstd::prelude::*;

verus! {

/// The material held by a cell.
///
/// The numeric code of each variant is consumed by the texture encoder and is
/// fixed by the order of declaration: do not reorder.
#[derive(Clone, Copy, PartialEq, Eq, Structural, Hash, Debug)]
pub enum Species {
    Empty,
    Sand,
    Water,
    Wall,
    Fire,
    /// A cell of a ghost group. (`Ghost` itself is a word of the verifier's
    /// prelude, so the variant goes by another name; it is displayed as
    /// "Ghost".)
    Specter,
    Smoke,
}

impl Species {
    /// The stable numeric code of a species.
    pub open spec fn code_spec(self) -> u8 {
        match self {
            Species::Empty => 0,
            Species::Sand => 1,
            Species::Water => 2,
            Species::Wall => 3,
            Species::Fire => 4,
            Species::Specter => 5,
            Species::Smoke => 6,
        }
    }

    /// The species that a numeric code stands for, if any.
    pub open spec fn from_code_spec(code: u8) -> Option<Species> {
        if code == 0 {
            Some(Species::Empty)
        } else if code == 1 {
            Some(Species::Sand)
        } else if code == 2 {
            Some(Species::Water)
        } else if code == 3 {
            Some(Species::Wall)
        } else if code == 4 {
            Some(Species::Fire)
        } else if code == 5 {
            Some(Species::Specter)
        } else if code == 6 {
            Some(Species::Smoke)
        } else {
            None
        }
    }

    /// Neither Empty nor Wall ever acts during a tick.
    pub open spec fn is_immobile(self) -> bool {
        self == Species::Empty || self == Species::Wall
    }

    /// The display name of a species, as a sequence of characters.
    pub open spec fn name_spec(self) -> Seq<char> {
        match self {
            Species::Empty => "Empty"@,
            Species::Sand => "Sand"@,
            Species::Water => "Water"@,
            Species::Wall => "Wall"@,
            Species::Fire => "Fire"@,
            Species::Specter => "Ghost"@,
            Species::Smoke => "Smoke"@,
        }
    }

    #[must_use]
    pub fn code(self) -> (code: u8)
        ensures
            code == self.code_spec(),
    {
        match self {
            Species::Empty => 0,
            Species::Sand => 1,
            Species::Water => 2,
            Species::Wall => 3,
            Species::Fire => 4,
            Species::Specter => 5,
            Species::Smoke => 6,
        }
    }

    #[must_use]
    pub fn from_code(code: u8) -> (species: Option<Species>)
        ensures
            species == Species::from_code_spec(code),
    {
        match code {
            0 => Some(Species::Empty),
            1 => Some(Species::Sand),
            2 => Some(Species::Water),
            3 => Some(Species::Wall),
            4 => Some(Species::Fire),
            5 => Some(Species::Specter),
            6 => Some(Species::Smoke),
            _ => None,
        }
    }

    /// The display name of the species.
    #[must_use]
    pub fn name(self) -> (name: String)
        ensures
            name@ == self.name_spec(),
    {
        match self {
            Species::Empty => "Empty".to_owned(),
            Species::Sand => "Sand".to_owned(),
            Species::Water => "Water".to_owned(),
            Species::Wall => "Wall".to_owned(),
            Species::Fire => "Fire".to_owned(),
            Species::Specter => "Ghost".to_owned(),
            Species::Smoke => "Smoke".to_owned(),
        }
    }
}

/// One grid slot: a species tag, two species-dependent bytes and the
/// generation at which the slot was last written.
#[derive(Clone, Copy, PartialEq, Eq, Structural, Hash, Debug)]
pub struct Cell {
    pub species: Species,
    pub ra: u8,
    pub rb: u8,
    pub clock: u8,
}

impl Cell {
    /// A cell of the given species with every byte field zero.
    pub open spec fn of(species: Species) -> Cell {
        Cell { species, ra: 0, rb: 0, clock: 0 }
    }

    /// The same cell with its clock set to `generation`.
    pub open spec fn stamped(self, generation: u8) -> Cell {
        Cell { clock: generation, ..self }
    }

    #[must_use]
    pub fn new(species: Species) -> (cell: Cell)
        ensures
            cell == Cell::of(species),
    {
        Cell { species, ra: 0, rb: 0, clock: 0 }
    }

    #[must_use]
    pub fn empty() -> (cell: Cell)
        ensures
            cell == Cell::of(Species::Empty),
    {
        Cell::new(Species::Empty)
    }

    #[must_use]
    pub fn wall() -> (cell: Cell)
        ensures
            cell == Cell::of(Species::Wall),
    {
        Cell::new(Species::Wall)
    }

    /// The display name of the cell: that of its species.
    #[must_use]
    pub fn name(self) -> (name: String)
        ensures
            name@ == self.species.name_spec(),
    {
        self.species.name()
    }
}

impl Default for Cell {
    fn default() -> (cell: Cell)
        ensures
            cell == Cell::of(Species::Empty),
    {
        Cell::empty()
    }
}

} // verus!
