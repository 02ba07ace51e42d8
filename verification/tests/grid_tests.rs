use simulation::api::SandApi;
use simulation::cell::{Cell, Species};
use simulation::Grid;

fn sample_cells() -> Vec<Cell> {
    let species = [
        Species::Empty,
        Species::Sand,
        Species::Water,
        Species::Wall,
        Species::Fire,
        Species::Specter,
        Species::Smoke,
    ];
    let mut cells = Vec::new();
    for (i, s) in species.iter().enumerate() {
        let k = i as u8;
        cells.push(Cell { species: *s, ra: k.wrapping_mul(37), rb: 255 - k, clock: k.wrapping_mul(91) });
    }
    cells
}

#[test]
fn grid_new_initializes_all_empty() {
    let grid = Grid::new(256, 256);
    assert_eq!(grid.width, 256);
    assert_eq!(grid.height, 256);
    assert_eq!(grid.cells.len(), 65536);
    assert_eq!(grid.generation, 0);
    for cell in &grid.cells {
        assert_eq!(*cell, Cell::empty());
    }
}

#[test]
fn grid_new_of_odd_sizes() {
    for (w, h) in [(1usize, 1usize), (3, 7), (7, 3), (1, 50), (0, 5), (5, 0)] {
        let grid = Grid::new(w, h);
        assert_eq!(grid.cells.len(), w * h);
        assert_eq!(grid.generation, 0);
        for cell in &grid.cells {
            assert_eq!(cell.species, Species::Empty);
            assert_eq!(cell.ra, 0);
            assert_eq!(cell.rb, 0);
            assert_eq!(cell.clock, 0);
        }
    }
}

#[test]
fn grid_get_set_in_bounds() {
    let mut grid = Grid::new(256, 256);
    let sand = Cell::new(Species::Sand);
    grid.set(10, 20, sand);
    assert_eq!(grid.get(10, 20), sand);
}

#[test]
fn grid_is_row_major() {
    let mut grid = Grid::new(5, 3);
    let sand = Cell::new(Species::Sand);
    grid.set(4, 1, sand);
    assert_eq!(grid.cells[1 * 5 + 4], sand);
    assert_eq!(grid.get(1, 4).species, Species::Wall);
    let mut count = 0;
    for cell in &grid.cells {
        if cell.species == Species::Sand {
            count += 1;
        }
    }
    assert_eq!(count, 1);
}

#[test]
fn grid_get_out_of_bounds_returns_wall() {
    let grid = Grid::new(256, 256);
    assert_eq!(grid.get(-1, 0).species, Species::Wall);
    assert_eq!(grid.get(0, -1).species, Species::Wall);
    assert_eq!(grid.get(256, 0).species, Species::Wall);
    assert_eq!(grid.get(0, 256).species, Species::Wall);
}

#[test]
fn grid_set_out_of_bounds_is_noop() {
    let mut grid = Grid::new(256, 256);
    let before: Vec<Cell> = grid.cells.clone();
    grid.set(-1, 0, Cell::new(Species::Sand));
    grid.set(256, 0, Cell::new(Species::Sand));
    grid.set(0, -1, Cell::new(Species::Sand));
    grid.set(0, 256, Cell::new(Species::Sand));
    assert_eq!(grid.cells, before);
}

#[test]
fn grid_in_bounds_checks() {
    let grid = Grid::new(256, 256);
    assert!(grid.in_bounds(0, 0));
    assert!(grid.in_bounds(255, 255));
    assert!(!grid.in_bounds(-1, 0));
    assert!(!grid.in_bounds(256, 0));
    assert!(!grid.in_bounds(0, -1));
    assert!(!grid.in_bounds(0, 256));
}

#[test]
fn grid_in_bounds_get_set_round_trip() {
    let coords = [(0, 0), (255, 255), (0, 255), (255, 0), (17, 201), (128, 3)];
    for (x, y) in coords {
        for cell in sample_cells() {
            let mut grid = Grid::new(256, 256);
            grid.set(x, y, cell);
            assert_eq!(grid.get(x, y), cell);
        }
    }
}

#[test]
fn grid_set_touches_one_cell_only() {
    let mut grid = Grid::new(8, 8);
    let cell = Cell { species: Species::Water, ra: 3, rb: 4, clock: 5 };
    grid.set(2, 6, cell);
    for y in 0..8 {
        for x in 0..8 {
            if (x, y) == (2, 6) {
                assert_eq!(grid.get(x, y), cell);
            } else {
                assert_eq!(grid.get(x, y), Cell::empty());
            }
        }
    }
}

#[test]
fn grid_out_of_bounds_returns_wall_and_unchanged() {
    let outside = [-1000, -1, 256, 999, i32::MIN, i32::MAX];
    for x in outside {
        for y in outside {
            for cell in sample_cells() {
                let mut grid = Grid::new(256, 256);
                let before: Vec<Cell> = grid.cells.clone();

                let got = grid.get(x, y);
                assert_eq!(got, Cell::wall());

                grid.set(x, y, cell);
                assert_eq!(grid.cells, before);
            }
        }
    }
}

#[test]
fn grid_one_coordinate_out_of_bounds_is_out_of_bounds() {
    let mut grid = Grid::new(16, 16);
    let before: Vec<Cell> = grid.cells.clone();
    for (x, y) in [(5, 16), (16, 5), (5, -1), (-1, 5)] {
        assert_eq!(grid.get(x, y).species, Species::Wall);
        grid.set(x, y, Cell::new(Species::Fire));
    }
    assert_eq!(grid.cells, before);
}

#[test]
fn sandapi_get_set_round_trip_with_clock() {
    let cases = [(0, 0, 5, 5), (255, 255, -128, -128), (100, 100, 127, -100), (10, 200, -10, 55)];
    for (base_x, base_y, dx, dy) in cases {
        for generation in [0u8, 1, 77, 255] {
            for cell in sample_cells() {
                let mut grid = Grid::new(256, 256);
                let mut api = SandApi::new(&mut grid, base_x, base_y, generation);

                api.set(dx, dy, cell);
                let got = api.get(dx, dy);

                assert_eq!(got.species, cell.species);
                assert_eq!(got.ra, cell.ra);
                assert_eq!(got.rb, cell.rb);
                assert_eq!(got.clock, generation, "clock should be stamped to current generation");
            }
        }
    }
}

#[test]
fn sandapi_out_of_bounds_boundary() {
    let cases = [(0, 0, -1, 0), (0, 0, 0, -1), (255, 255, 1, 0), (255, 255, 0, 1), (100, 100, 511, -511)];
    for (base_x, base_y, dx, dy) in cases {
        for cell in sample_cells() {
            let mut grid = Grid::new(256, 256);
            let before: Vec<Cell> = grid.cells.clone();

            let mut api = SandApi::new(&mut grid, base_x, base_y, 9);

            // get returns Wall
            let got = api.get(dx, dy);
            assert_eq!(got.species, Species::Wall);

            // set is a no-op
            api.set(dx, dy, cell);
            assert_eq!(api.grid.cells.as_slice(), before.as_slice());
        }
    }
}

#[test]
fn sandapi_offsets_beyond_the_coordinate_range_are_out_of_bounds() {
    let mut grid = Grid::new(4, 4);
    let before: Vec<Cell> = grid.cells.clone();
    let mut api = SandApi::new(&mut grid, 3, 3, 1);
    assert_eq!(api.get(i32::MAX, 0), Cell::wall());
    assert_eq!(api.get(0, i32::MAX), Cell::wall());
    api.set(i32::MAX, i32::MAX, Cell::new(Species::Sand));
    assert_eq!(api.grid.cells, before);

    let mut api = SandApi::new(&mut grid, -5, -5, 1);
    assert_eq!(api.get(i32::MIN, 0), Cell::wall());
    assert_eq!(api.get(6, 6), Cell::empty());
}

#[test]
fn sandapi_is_bound_to_its_cell() {
    let mut grid = Grid::new(8, 8);
    grid.set(3, 4, Cell::new(Species::Sand));
    grid.set(4, 5, Cell::new(Species::Water));
    let api = SandApi::new(&mut grid, 3, 4, 7);
    assert_eq!(api.x, 3);
    assert_eq!(api.y, 4);
    assert_eq!(api.generation, 7);
    assert_eq!(api.get(0, 0).species, Species::Sand);
    assert_eq!(api.get(1, 1).species, Species::Water);
    assert_eq!(api.get(-1, 0).species, Species::Empty);
}
