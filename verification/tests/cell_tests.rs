use simulation::cell::{Cell, Species};

#[test]
fn cell_is_4_bytes() {
    assert_eq!(std::mem::size_of::<Cell>(), 4);
}

#[test]
fn species_discriminant_values() {
    assert_eq!(Species::Empty as u8, 0);
    assert_eq!(Species::Sand as u8, 1);
    assert_eq!(Species::Water as u8, 2);
    assert_eq!(Species::Wall as u8, 3);
    assert_eq!(Species::Fire as u8, 4);
    assert_eq!(Species::Specter as u8, 5);
}

#[test]
fn species_codes_are_frozen() {
    assert_eq!(Species::Empty.code(), 0);
    assert_eq!(Species::Sand.code(), 1);
    assert_eq!(Species::Water.code(), 2);
    assert_eq!(Species::Wall.code(), 3);
    assert_eq!(Species::Fire.code(), 4);
    assert_eq!(Species::Specter.code(), 5);
    assert_eq!(Species::Smoke.code(), 6);
    assert_eq!(Species::Smoke as u8, 6);
}

#[test]
fn species_from_code_inverts_code() {
    let all = [
        Species::Empty,
        Species::Sand,
        Species::Water,
        Species::Wall,
        Species::Fire,
        Species::Specter,
        Species::Smoke,
    ];
    for s in all {
        assert_eq!(Species::from_code(s.code()), Some(s));
    }
    assert_eq!(Species::from_code(7), None);
    assert_eq!(Species::from_code(255), None);
}

#[test]
fn cell_constructors() {
    let empty = Cell::empty();
    assert_eq!(empty.species, Species::Empty);
    assert_eq!(empty.ra, 0);
    assert_eq!(empty.rb, 0);
    assert_eq!(empty.clock, 0);

    let wall = Cell::wall();
    assert_eq!(wall.species, Species::Wall);

    let sand = Cell::new(Species::Sand);
    assert_eq!(sand.species, Species::Sand);
}

#[test]
fn cell_default_is_empty() {
    assert_eq!(Cell::default(), Cell::empty());
}

#[test]
fn species_display() {
    assert_eq!(Species::Sand.name(), "Sand");
    assert_eq!(Species::Empty.name(), "Empty");
}

#[test]
fn every_species_has_its_name() {
    assert_eq!(Species::Water.name(), "Water");
    assert_eq!(Species::Wall.name(), "Wall");
    assert_eq!(Species::Fire.name(), "Fire");
    assert_eq!(Species::Specter.name(), "Ghost");
    assert_eq!(Species::Smoke.name(), "Smoke");
}

#[test]
fn cell_name_is_that_of_its_species() {
    let mut cell = Cell::new(Species::Water);
    cell.ra = 9;
    assert_eq!(cell.name(), "Water");
}

#[test]
fn fresh_cells_have_all_fields_zero() {
    for width in [1usize, 7, 256] {
        for height in [1usize, 3, 256] {
            let cells: Vec<Cell> = (0..width * height).map(|_| Cell::empty()).collect();
            for cell in &cells {
                assert_eq!(cell.species, Species::Empty);
                assert_eq!(cell.ra, 0);
                assert_eq!(cell.rb, 0);
                assert_eq!(cell.clock, 0);
            }
        }
    }
}
