use simulation::cell::{Cell, Species};
use simulation::elements::simulate_tick;
use simulation::Grid;

/// A small deterministic generator, so that the grids are the same on
/// every run.
struct Lcg(u64);

impl Lcg {
    fn next(&mut self) -> u64 {
        self.0 = self.0.wrapping_mul(6364136223846793005).wrapping_add(1442695040888963407);
        self.0 >> 33
    }
}

fn species_counts(grid: &Grid) -> [usize; 7] {
    let mut counts = [0usize; 7];
    for cell in &grid.cells {
        counts[cell.species as usize] += 1;
    }
    counts
}

fn random_grid(size: usize, palette: &[Species], seed: u64) -> Grid {
    let mut rng = Lcg(seed);
    let mut grid = Grid::new(size, size);
    for i in 0..size * size {
        grid.cells[i] = Cell::new(palette[(rng.next() % palette.len() as u64) as usize]);
    }
    grid
}

#[test]
fn generation_counter_wraps_correctly() {
    for n in [1u32, 2, 100, 255, 256, 257, 511, 512, 1023] {
        let mut grid = Grid::new(16, 16);
        for _ in 0..n {
            grid.tick();
        }
        assert_eq!(grid.generation, (n % 256) as u8);
    }
}

#[test]
fn generation_advances_by_one_each_tick() {
    let mut grid = Grid::new(4, 4);
    grid.generation = 254;
    grid.tick();
    assert_eq!(grid.generation, 255);
    grid.tick();
    assert_eq!(grid.generation, 0);
    grid.tick();
    assert_eq!(grid.generation, 1);
}

#[test]
fn clock_prevents_double_update() {
    for x in 0..16 {
        for y in 0..15 {
            let mut grid = Grid::new(16, 16);

            // Place a Sand cell that would normally fall down (empty below),
            // its clock pre-stamped to the next generation.
            let mut sand = Cell::new(Species::Sand);
            sand.clock = 1;
            grid.set(x, y, sand);

            grid.tick();

            assert_eq!(grid.get(x, y).species, Species::Sand);
            assert_eq!(grid.get(x, y + 1).species, Species::Empty);
        }
    }
}

#[test]
fn a_cell_moves_once_per_tick_however_far_the_scan_goes() {
    // Smoke rises into a row that the scan has yet to visit; its stamp
    // keeps it from rising again in the same tick.
    let mut grid = Grid::new(5, 8);
    grid.set(2, 6, Cell { species: Species::Smoke, ra: 1, rb: 200, clock: 0 });
    grid.tick();
    assert_eq!(grid.get(2, 5), Cell { species: Species::Smoke, ra: 1, rb: 199, clock: 1 });
    for y in 0..8 {
        if y != 5 {
            assert_eq!(grid.get(2, y).species, Species::Empty);
        }
    }
}

#[test]
fn a_grid_at_rest_is_left_as_it_is() {
    let mut grid = random_grid(16, &[Species::Empty, Species::Sand, Species::Water, Species::Wall, Species::Fire, Species::Smoke], 99);
    for cell in grid.cells.iter_mut() {
        cell.clock = 8;
        cell.rb = 3;
    }
    grid.generation = 7;
    let before = grid.cells.clone();
    grid.tick();
    assert_eq!(grid.generation, 8);
    assert_eq!(grid.cells, before);
}

#[test]
fn immobile_species_grid_invariant() {
    for seed in 0..20 {
        let grid = random_grid(16, &[Species::Empty, Species::Wall], seed);
        let before: Vec<Cell> = grid.cells.clone();
        let mut grid = grid;
        simulate_tick(&mut grid);
        for (a, b) in before.iter().zip(grid.cells.iter()) {
            assert_eq!(a.species, b.species);
            assert_eq!(a.ra, b.ra);
            assert_eq!(a.rb, b.rb);
        }
        assert_eq!(grid.cells, before);
    }
}

#[test]
fn sand_falls_through_empty() {
    for x in 0..16 {
        for y in 0..15 {
            let size = 16;
            let mut grid = Grid::new(size, size);
            grid.set(x, y, Cell::new(Species::Sand));

            simulate_tick(&mut grid);

            assert_eq!(grid.get(x, y + 1).species, Species::Sand);
            assert_eq!(grid.get(x, y).species, Species::Empty);
        }
    }
}

#[test]
fn sand_falls_exactly_one_row_per_tick() {
    let mut grid = Grid::new(8, 12);
    grid.set(3, 0, Cell::new(Species::Sand));
    for step in 1..=11 {
        grid.tick();
        for y in 0..12 {
            let expected = if y == step { Species::Sand } else { Species::Empty };
            assert_eq!(grid.get(3, y).species, expected);
        }
        assert_eq!(grid.get(3, step).clock, step as u8);
    }
    // on the bottom row it rests
    for _ in 0..3 {
        grid.tick();
        assert_eq!(grid.get(3, 11).species, Species::Sand);
    }
}

#[test]
fn sand_displaces_water_by_swapping() {
    for x in 2..14 {
        for y in 1..14 {
            let size = 16;
            let mut grid = Grid::new(size, size);
            // Sand at (x, y), Water at (x, y+1), the Water's escape routes
            // blocked with Wall.
            grid.set(x, y, Cell::new(Species::Sand));
            grid.set(x, y + 1, Cell::new(Species::Water));
            grid.set(x, y + 2, Cell::new(Species::Wall));
            grid.set(x - 1, y + 2, Cell::new(Species::Wall));
            grid.set(x + 1, y + 2, Cell::new(Species::Wall));
            grid.set(x - 1, y + 1, Cell::new(Species::Wall));
            grid.set(x + 1, y + 1, Cell::new(Species::Wall));

            simulate_tick(&mut grid);

            assert_eq!(grid.get(x, y + 1).species, Species::Sand);
            assert_eq!(grid.get(x, y).species, Species::Water);
        }
    }
}

#[test]
fn species_conservation_on_movement() {
    let palette = [Species::Empty, Species::Sand, Species::Water, Species::Wall, Species::Specter];
    for seed in 0..40 {
        let mut grid = random_grid(16, &palette, seed);

        let before = species_counts(&grid);
        simulate_tick(&mut grid);
        let after = species_counts(&grid);

        assert_eq!(before[Species::Empty as usize], after[Species::Empty as usize]);
        assert_eq!(before[Species::Sand as usize], after[Species::Sand as usize]);
        assert_eq!(before[Species::Water as usize], after[Species::Water as usize]);
        assert_eq!(before[Species::Wall as usize], after[Species::Wall as usize]);
        assert_eq!(before[Species::Specter as usize], after[Species::Specter as usize]);
    }
}

#[test]
fn species_conservation_over_many_ticks_with_moving_groups() {
    let palette = [
        Species::Empty,
        Species::Empty,
        Species::Empty,
        Species::Sand,
        Species::Water,
        Species::Wall,
        Species::Specter,
    ];
    for seed in 0..10 {
        let mut rng = Lcg(seed + 1000);
        let mut grid = random_grid(24, &palette, seed);
        for cell in grid.cells.iter_mut() {
            if cell.species == Species::Specter {
                cell.ra = (rng.next() % 4) as u8;
            }
        }
        let before = species_counts(&grid);
        for _ in 0..60 {
            grid.tick();
            assert_eq!(species_counts(&grid), before);
        }
    }
}

#[test]
fn scan_runs_right_to_left_on_odd_generations() {
    // Two grains compete for the one hole between them; the one that the
    // scan visits first gets it.
    let mut grid = Grid::new(5, 2);
    for x in 0..5 {
        if x != 2 {
            grid.set(x, 1, Cell::wall());
        }
    }
    grid.set(1, 0, Cell { species: Species::Sand, ra: 0, rb: 11, clock: 0 });
    grid.set(3, 0, Cell { species: Species::Sand, ra: 0, rb: 33, clock: 0 });
    grid.tick();
    assert_eq!(grid.generation, 1);
    assert_eq!(grid.get(2, 1), Cell { species: Species::Sand, ra: 0, rb: 33, clock: 1 });
    assert_eq!(grid.get(1, 0), Cell { species: Species::Sand, ra: 0, rb: 11, clock: 0 });
    assert_eq!(grid.get(3, 0), Cell { species: Species::Empty, ra: 0, rb: 0, clock: 1 });
}

#[test]
fn scan_runs_left_to_right_on_even_generations() {
    let mut grid = Grid::new(5, 2);
    for x in 0..5 {
        if x != 2 {
            grid.set(x, 1, Cell::wall());
        }
    }
    grid.set(1, 0, Cell { species: Species::Sand, ra: 0, rb: 11, clock: 0 });
    grid.set(3, 0, Cell { species: Species::Sand, ra: 0, rb: 33, clock: 0 });
    grid.generation = 1;
    grid.tick();
    assert_eq!(grid.generation, 2);
    assert_eq!(grid.get(2, 1), Cell { species: Species::Sand, ra: 0, rb: 11, clock: 2 });
    assert_eq!(grid.get(3, 0), Cell { species: Species::Sand, ra: 0, rb: 33, clock: 0 });
    assert_eq!(grid.get(1, 0), Cell { species: Species::Empty, ra: 0, rb: 0, clock: 2 });
}

#[test]
fn scan_runs_from_the_bottom_row_up() {
    // A column of sand: the lowest grain falls first and makes room, so
    // the whole column comes down one row in one tick.
    let mut grid = Grid::new(3, 8);
    for y in 1..4 {
        grid.set(1, y, Cell { species: Species::Sand, ra: 0, rb: y as u8, clock: 0 });
    }
    grid.tick();
    assert_eq!(grid.get(1, 1).species, Species::Empty);
    for y in 2..5 {
        assert_eq!(grid.get(1, y), Cell { species: Species::Sand, ra: 0, rb: (y - 1) as u8, clock: 1 });
    }
}

#[test]
fn update_cell_at_skips_immobile_and_stamped_cells() {
    let mut grid = Grid::new(5, 5);
    grid.set(2, 1, Cell { species: Species::Sand, ra: 0, rb: 0, clock: 9 });
    grid.set(3, 1, Cell::wall());
    let before = grid.cells.clone();
    grid.update_cell_at(2, 1, 9);
    grid.update_cell_at(3, 1, 9);
    grid.update_cell_at(0, 0, 9);
    grid.update_cell_at(-3, 99, 9);
    assert_eq!(grid.cells, before);
    grid.update_cell_at(2, 1, 10);
    assert_eq!(grid.get(2, 2), Cell { species: Species::Sand, ra: 0, rb: 0, clock: 10 });
    assert_eq!(grid.get(2, 1).species, Species::Empty);
}

#[test]
fn fire_burns_out_to_smoke_and_smoke_to_empty() {
    let mut grid = Grid::new(9, 40);
    grid.set(4, 39, Cell { species: Species::Fire, ra: 3, rb: 30, clock: 0 });
    let mut saw_smoke = false;
    for _ in 0..600 {
        grid.tick();
        let counts = species_counts(&grid);
        assert!(counts[Species::Fire as usize] <= 1);
        if counts[Species::Smoke as usize] > 0 {
            saw_smoke = true;
            assert_eq!(counts[Species::Fire as usize], 0);
        }
    }
    assert!(saw_smoke);
    let counts = species_counts(&grid);
    assert_eq!(counts[Species::Fire as usize], 0);
    assert_eq!(counts[Species::Smoke as usize], 0);
    assert_eq!(counts[Species::Empty as usize], 9 * 40);
}

#[test]
fn a_tick_of_an_empty_grid_of_no_size_does_nothing() {
    for (w, h) in [(0usize, 0usize), (0, 4), (4, 0)] {
        let mut grid = Grid::new(w, h);
        grid.tick();
        assert_eq!(grid.generation, 1);
        assert_eq!(grid.cells.len(), 0);
    }
}

#[test]
fn blocked_water_turns_round_before_the_sand_sinks_through_it() {
    let mut grid = Grid::new(16, 16);
    let (x, y) = (7, 5);
    grid.set(x, y, Cell { species: Species::Sand, ra: 0, rb: 42, clock: 0 });
    grid.set(x, y + 1, Cell { species: Species::Water, ra: 6, rb: 0, clock: 0 });
    for (wx, wy) in [(x, y + 2), (x - 1, y + 2), (x + 1, y + 2), (x - 1, y + 1), (x + 1, y + 1)] {
        grid.set(wx, wy, Cell::wall());
    }
    let before = grid.cells.clone();
    grid.tick();
    assert_eq!(grid.get(x, y + 1), Cell { species: Species::Sand, ra: 0, rb: 42, clock: 1 });
    assert_eq!(grid.get(x, y), Cell { species: Species::Water, ra: 7, rb: 0, clock: 1 });
    for cy in 0..16 {
        for cx in 0..16 {
            if cx != x || (cy != y && cy != y + 1) {
                assert_eq!(grid.get(cx, cy), before[(cy * 16 + cx) as usize]);
            }
        }
    }
}

#[test]
fn a_lone_grain_changes_two_cells_and_no_other() {
    let mut grid = Grid::new(9, 9);
    for cell in grid.cells.iter_mut() {
        cell.ra = 5;
    }
    grid.set(4, 4, Cell { species: Species::Sand, ra: 1, rb: 2, clock: 200 });
    grid.set(0, 8, Cell { species: Species::Water, ra: 1, rb: 2, clock: 1 });
    let before = grid.cells.clone();
    grid.tick();
    assert_eq!(grid.get(4, 5), Cell { species: Species::Sand, ra: 1, rb: 2, clock: 1 });
    assert_eq!(grid.get(4, 4), Cell { species: Species::Empty, ra: 5, rb: 0, clock: 1 });
    for cy in 0..9 {
        for cx in 0..9 {
            if cx != 4 || (cy != 4 && cy != 5) {
                assert_eq!(grid.get(cx, cy), before[(cy * 9 + cx) as usize]);
            }
        }
    }
}
