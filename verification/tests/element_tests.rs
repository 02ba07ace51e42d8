use simulation::api::SandApi;
use simulation::cell::{Cell, Species};
use simulation::elements::fire::update_fire;
use simulation::elements::ghost::update_ghost;
use simulation::elements::sand::update_sand;
use simulation::elements::smoke::update_smoke;
use simulation::elements::update_cell;
use simulation::elements::water::update_water;
use simulation::Grid;

fn cell(species: Species, ra: u8, rb: u8, clock: u8) -> Cell {
    Cell { species, ra, rb, clock }
}

fn wall_row(grid: &mut Grid, y: i32) {
    for x in 0..grid.width as i32 {
        grid.set(x, y, Cell::wall());
    }
}

fn wall_col(grid: &mut Grid, x: i32) {
    for y in 0..grid.height as i32 {
        grid.set(x, y, Cell::wall());
    }
}

// ── Sand ──

#[test]
fn sand_rule_falls_straight_down() {
    let mut grid = Grid::new(5, 5);
    grid.set(2, 2, cell(Species::Sand, 0, 9, 0));
    grid.set(2, 3, cell(Species::Empty, 7, 0, 0));
    let before = grid.cells.clone();
    let mut api = SandApi::new(&mut grid, 2, 2, 4);
    update_sand(&mut api);
    assert_eq!(grid.get(2, 3), cell(Species::Sand, 0, 9, 4));
    assert_eq!(grid.get(2, 2), cell(Species::Empty, 7, 0, 4));
    for y in 0..5 {
        for x in 0..5 {
            if (x, y) != (2, 2) && (x, y) != (2, 3) {
                assert_eq!(grid.get(x, y), before[(y * 5 + x) as usize]);
            }
        }
    }
}

#[test]
fn sand_rule_exchanges_with_water_below() {
    let mut grid = Grid::new(5, 5);
    grid.set(2, 2, cell(Species::Sand, 1, 9, 0));
    grid.set(2, 3, cell(Species::Water, 5, 6, 0));
    let mut api = SandApi::new(&mut grid, 2, 2, 4);
    update_sand(&mut api);
    assert_eq!(grid.get(2, 3), cell(Species::Sand, 1, 9, 4));
    assert_eq!(grid.get(2, 2), cell(Species::Water, 5, 6, 4));
}

#[test]
fn sand_rule_tries_left_diagonal_first_on_even_generations() {
    let mut grid = Grid::new(5, 5);
    grid.set(2, 2, Cell::new(Species::Sand));
    grid.set(2, 3, Cell::wall());
    let mut api = SandApi::new(&mut grid, 2, 2, 4);
    update_sand(&mut api);
    assert_eq!(grid.get(1, 3).species, Species::Sand);
    assert_eq!(grid.get(1, 3).clock, 4);
    assert_eq!(grid.get(2, 2).species, Species::Empty);
    assert_eq!(grid.get(3, 3).species, Species::Empty);
}

#[test]
fn sand_rule_tries_right_diagonal_first_on_odd_generations() {
    let mut grid = Grid::new(5, 5);
    grid.set(2, 2, Cell::new(Species::Sand));
    grid.set(2, 3, Cell::wall());
    let mut api = SandApi::new(&mut grid, 2, 2, 5);
    update_sand(&mut api);
    assert_eq!(grid.get(3, 3).species, Species::Sand);
    assert_eq!(grid.get(2, 2).species, Species::Empty);
    assert_eq!(grid.get(1, 3).species, Species::Empty);
}

#[test]
fn sand_rule_takes_the_other_diagonal_when_the_first_is_blocked() {
    let mut grid = Grid::new(5, 5);
    grid.set(2, 2, Cell::new(Species::Sand));
    grid.set(2, 3, Cell::wall());
    grid.set(1, 3, Cell::new(Species::Sand));
    let mut api = SandApi::new(&mut grid, 2, 2, 4);
    update_sand(&mut api);
    assert_eq!(grid.get(3, 3).species, Species::Sand);
    assert_eq!(grid.get(2, 2).species, Species::Empty);
}

#[test]
fn sand_rule_sinks_diagonally_into_water() {
    let mut grid = Grid::new(5, 5);
    grid.set(2, 2, cell(Species::Sand, 0, 1, 0));
    grid.set(2, 3, Cell::wall());
    grid.set(1, 3, Cell::wall());
    grid.set(3, 3, cell(Species::Water, 8, 0, 0));
    let mut api = SandApi::new(&mut grid, 2, 2, 4);
    update_sand(&mut api);
    assert_eq!(grid.get(3, 3), cell(Species::Sand, 0, 1, 4));
    assert_eq!(grid.get(2, 2), cell(Species::Water, 8, 0, 4));
}

#[test]
fn sand_rule_stays_when_blocked() {
    let mut grid = Grid::new(5, 5);
    grid.set(2, 2, cell(Species::Sand, 3, 4, 9));
    grid.set(1, 3, Cell::wall());
    grid.set(2, 3, Cell::new(Species::Sand));
    grid.set(3, 3, Cell::new(Species::Fire));
    let before = grid.cells.clone();
    let mut api = SandApi::new(&mut grid, 2, 2, 4);
    update_sand(&mut api);
    assert_eq!(grid.cells, before);
}

#[test]
fn sand_rule_rests_on_the_bottom_row() {
    let mut grid = Grid::new(5, 5);
    grid.set(2, 4, Cell::new(Species::Sand));
    let before = grid.cells.clone();
    let mut api = SandApi::new(&mut grid, 2, 4, 4);
    update_sand(&mut api);
    assert_eq!(grid.cells, before);
}

// ── Water ──

#[test]
fn water_rule_falls_straight_down() {
    let mut grid = Grid::new(5, 5);
    grid.set(2, 2, cell(Species::Water, 4, 1, 0));
    let mut api = SandApi::new(&mut grid, 2, 2, 3);
    update_water(&mut api);
    assert_eq!(grid.get(2, 3), cell(Species::Water, 4, 1, 3));
    assert_eq!(grid.get(2, 2), cell(Species::Empty, 0, 0, 3));
}

#[test]
fn water_rule_takes_a_new_direction_every_twentieth_generation() {
    for gen in [0u8, 20, 40, 240] {
        let mut grid = Grid::new(5, 5);
        grid.set(2, 2, cell(Species::Water, 4, 1, 0));
        let mut api = SandApi::new(&mut grid, 2, 2, gen);
        update_water(&mut api);
        assert_eq!(grid.get(2, 3), cell(Species::Water, gen, 1, gen));
    }
    let mut grid = Grid::new(5, 5);
    grid.set(2, 2, cell(Species::Water, 4, 1, 0));
    let mut api = SandApi::new(&mut grid, 2, 2, 21);
    update_water(&mut api);
    assert_eq!(grid.get(2, 3), cell(Species::Water, 4, 1, 21));
}

#[test]
fn water_rule_slides_in_its_own_direction_first() {
    // even ra: left first
    let mut grid = Grid::new(5, 5);
    grid.set(2, 2, cell(Species::Water, 4, 0, 0));
    grid.set(2, 3, Cell::wall());
    let mut api = SandApi::new(&mut grid, 2, 2, 3);
    update_water(&mut api);
    assert_eq!(grid.get(1, 3), cell(Species::Water, 4, 0, 3));
    assert_eq!(grid.get(2, 2).species, Species::Empty);
    assert_eq!(grid.get(3, 3).species, Species::Empty);

    // odd ra: right first
    let mut grid = Grid::new(5, 5);
    grid.set(2, 2, cell(Species::Water, 5, 0, 0));
    grid.set(2, 3, Cell::wall());
    let mut api = SandApi::new(&mut grid, 2, 2, 3);
    update_water(&mut api);
    assert_eq!(grid.get(3, 3), cell(Species::Water, 5, 0, 3));
    assert_eq!(grid.get(1, 3).species, Species::Empty);
}

#[test]
fn water_rule_slides_the_other_way_when_its_own_is_blocked() {
    let mut grid = Grid::new(5, 5);
    grid.set(2, 2, cell(Species::Water, 4, 0, 0));
    grid.set(2, 3, Cell::wall());
    grid.set(1, 3, Cell::wall());
    let mut api = SandApi::new(&mut grid, 2, 2, 3);
    update_water(&mut api);
    assert_eq!(grid.get(3, 3), cell(Species::Water, 4, 0, 3));
    assert_eq!(grid.get(2, 2).species, Species::Empty);
}

#[test]
fn water_rule_flows_through_water_to_the_nearest_empty_cell() {
    let mut grid = Grid::new(9, 3);
    wall_row(&mut grid, 2);
    grid.set(4, 1, cell(Species::Water, 1, 77, 0));
    grid.set(5, 1, cell(Species::Water, 2, 0, 0));
    grid.set(3, 1, Cell::wall());
    let mut api = SandApi::new(&mut grid, 4, 1, 3);
    update_water(&mut api);
    assert_eq!(grid.get(6, 1), cell(Species::Water, 1, 77, 3));
    assert_eq!(grid.get(4, 1), cell(Species::Empty, 0, 0, 3));
    assert_eq!(grid.get(5, 1), cell(Species::Water, 2, 0, 0));
    assert_eq!(grid.get(7, 1), Cell::empty());
}

#[test]
fn water_rule_reaches_five_cells_and_no_further() {
    // Empty exactly five cells away: reached.
    let mut grid = Grid::new(12, 3);
    wall_row(&mut grid, 2);
    grid.set(0, 1, Cell::wall());
    grid.set(1, 1, cell(Species::Water, 1, 9, 0));
    for x in 2..6 {
        grid.set(x, 1, Cell::new(Species::Water));
    }
    let mut api = SandApi::new(&mut grid, 1, 1, 3);
    update_water(&mut api);
    assert_eq!(grid.get(6, 1), cell(Species::Water, 1, 9, 3));
    assert_eq!(grid.get(1, 1), cell(Species::Empty, 0, 0, 3));

    // Empty six cells away: out of reach, and the other side is a wall.
    let mut grid = Grid::new(12, 3);
    wall_row(&mut grid, 2);
    grid.set(0, 1, Cell::wall());
    grid.set(1, 1, cell(Species::Water, 1, 9, 0));
    for x in 2..7 {
        grid.set(x, 1, Cell::new(Species::Water));
    }
    let mut api = SandApi::new(&mut grid, 1, 1, 3);
    update_water(&mut api);
    assert_eq!(grid.get(7, 1), Cell::empty());
    // above is Empty and below is Wall: neither hop nor level swap, so it turns round
    assert_eq!(grid.get(1, 1), cell(Species::Water, 0, 9, 3));
}

#[test]
fn water_rule_flows_the_other_way_when_an_obstacle_stands_in_its_own() {
    let mut grid = Grid::new(9, 3);
    wall_row(&mut grid, 2);
    grid.set(4, 1, cell(Species::Water, 1, 0, 0));
    grid.set(5, 1, Cell::new(Species::Sand));
    let mut api = SandApi::new(&mut grid, 4, 1, 3);
    update_water(&mut api);
    assert_eq!(grid.get(3, 1), cell(Species::Water, 1, 0, 3));
    assert_eq!(grid.get(4, 1), cell(Species::Empty, 0, 0, 3));
    assert_eq!(grid.get(5, 1), Cell::new(Species::Sand));
}

fn level_swap_pool() -> Grid {
    // Row 4: floor. Row 3: wall, seven water cells, wall. Row 2: water
    // above the first three of them.
    let mut grid = Grid::new(9, 5);
    wall_row(&mut grid, 4);
    grid.set(0, 3, Cell::wall());
    grid.set(8, 3, Cell::wall());
    for x in 1..8 {
        grid.set(x, 3, cell(Species::Water, (x as u8) * 11, 0, 0));
    }
    grid.set(1, 3, cell(Species::Water, 10, 0, 0));
    for x in 1..4 {
        grid.set(x, 2, Cell::new(Species::Water));
    }
    grid
}

#[test]
fn water_rule_level_swap_exchanges_with_a_distant_surface_cell() {
    for gen in [2u8, 3] {
        let mut grid = level_swap_pool();
        let before = grid.cells.clone();
        let mut api = SandApi::new(&mut grid, 1, 3, gen);
        update_water(&mut api);
        assert_eq!(grid.get(1, 3), cell(Species::Water, 44, 0, gen));
        assert_eq!(grid.get(4, 3), cell(Species::Water, 10, 0, gen));
        for y in 0..5 {
            for x in 0..9 {
                if (x, y) != (1, 3) && (x, y) != (4, 3) {
                    assert_eq!(grid.get(x, y), before[(y * 9 + x) as usize]);
                }
            }
        }
    }
}

#[test]
fn water_rule_level_scan_steps_down_round_an_obstacle() {
    let mut grid = Grid::new(8, 6);
    wall_row(&mut grid, 5);
    wall_col(&mut grid, 0);
    wall_col(&mut grid, 7);
    for x in 1..7 {
        grid.set(x, 4, cell(Species::Water, (x as u8) * 2, 0, 0));
    }
    grid.set(1, 3, cell(Species::Water, 100, 0, 0));
    grid.set(2, 3, Cell::new(Species::Water));
    grid.set(3, 3, Cell::new(Species::Sand));
    grid.set(1, 2, Cell::new(Species::Water));
    let mut api = SandApi::new(&mut grid, 1, 3, 2);
    update_water(&mut api);
    assert_eq!(grid.get(4, 4), cell(Species::Water, 100, 0, 2));
    assert_eq!(grid.get(1, 3), cell(Species::Water, 8, 0, 2));
}

#[test]
fn water_rule_turns_round_when_blocked() {
    let mut grid = Grid::new(3, 3);
    for y in 0..3 {
        for x in 0..3 {
            grid.set(x, y, Cell::wall());
        }
    }
    grid.set(1, 1, cell(Species::Water, 6, 2, 0));
    grid.set(1, 0, Cell::empty());
    let mut api = SandApi::new(&mut grid, 1, 1, 9);
    update_water(&mut api);
    assert_eq!(grid.get(1, 1), cell(Species::Water, 7, 2, 9));
    let mut api = SandApi::new(&mut grid, 1, 1, 10);
    update_water(&mut api);
    assert_eq!(grid.get(1, 1), cell(Species::Water, 6, 2, 10));
    assert_eq!(grid.get(1, 0), Cell::empty());
}

// ── Fire ──

#[test]
fn fire_rule_at_zero_lifetime_becomes_smoke_and_seeds_a_plume() {
    let mut grid = Grid::new(9, 9);
    grid.set(5, 5, cell(Species::Fire, 7, 0, 0));
    let mut api = SandApi::new(&mut grid, 5, 5, 1);
    update_fire(&mut api);
    assert_eq!(grid.get(5, 5), cell(Species::Smoke, 7, 87, 1));
    assert_eq!(grid.get(4, 4), cell(Species::Smoke, 6, 86, 1));
    assert_eq!(grid.get(5, 4), cell(Species::Smoke, 7, 87, 1));
    assert_eq!(grid.get(6, 4), cell(Species::Smoke, 8, 88, 1));
    assert_eq!(grid.get(4, 5), Cell::empty());
    assert_eq!(grid.get(6, 5), Cell::empty());
}

#[test]
fn fire_rule_plume_only_fills_empty_cells_and_seeds_wrap() {
    let mut grid = Grid::new(9, 9);
    grid.set(5, 5, cell(Species::Fire, 0, 0, 0));
    grid.set(5, 4, Cell::wall());
    let mut api = SandApi::new(&mut grid, 5, 5, 3);
    update_fire(&mut api);
    // smoke lifetime: 80 + (3 * seed) % 120
    assert_eq!(grid.get(5, 5), cell(Species::Smoke, 0, 80, 3));
    // seed 0 - 1 wraps to 255: 3 * 255 wraps to 253, 253 % 120 = 13
    assert_eq!(grid.get(4, 4), cell(Species::Smoke, 255, 93, 3));
    assert_eq!(grid.get(5, 4), Cell::wall());
    assert_eq!(grid.get(6, 4), cell(Species::Smoke, 1, 83, 3));
}

#[test]
fn fire_rule_fades_early_when_its_roll_divides() {
    // roll = (1 + 4) * 3 = 15, lifetime 5 divides it
    let mut grid = Grid::new(9, 9);
    grid.set(5, 5, cell(Species::Fire, 4, 5, 0));
    grid.set(4, 4, Cell::wall());
    grid.set(5, 4, Cell::wall());
    grid.set(6, 4, Cell::wall());
    let mut api = SandApi::new(&mut grid, 5, 5, 1);
    update_fire(&mut api);
    assert_eq!(grid.get(5, 5), cell(Species::Smoke, 4, 84, 1));

    // lifetime 10 does not divide 15: it lives and ages
    let mut grid = Grid::new(9, 9);
    grid.set(5, 5, cell(Species::Fire, 4, 10, 0));
    grid.set(4, 4, Cell::wall());
    grid.set(5, 4, Cell::wall());
    grid.set(6, 4, Cell::wall());
    let mut api = SandApi::new(&mut grid, 5, 5, 1);
    update_fire(&mut api);
    assert_eq!(grid.get(5, 5), cell(Species::Fire, 4, 9, 1));

    // above the threshold the roll does not matter: 15 % 15 == 0, yet it lives
    let mut grid = Grid::new(9, 9);
    grid.set(5, 5, cell(Species::Fire, 4, 15, 0));
    let mut api = SandApi::new(&mut grid, 5, 5, 1);
    update_fire(&mut api);
    assert_eq!(grid.get(5, 4), cell(Species::Fire, 4, 14, 1));
}

#[test]
fn fire_rule_rises_and_ages() {
    let mut grid = Grid::new(9, 9);
    grid.set(5, 5, cell(Species::Fire, 4, 50, 0));
    let mut api = SandApi::new(&mut grid, 5, 5, 1);
    update_fire(&mut api);
    assert_eq!(grid.get(5, 4), cell(Species::Fire, 4, 49, 1));
    assert_eq!(grid.get(5, 5), cell(Species::Empty, 0, 0, 1));
}

#[test]
fn fire_rule_flickers_to_the_side_of_its_seed() {
    // roll = (2 + 0) * 3 = 6, a multiple of 6: flicker; even seed: left
    let mut grid = Grid::new(9, 9);
    grid.set(5, 5, cell(Species::Fire, 0, 50, 0));
    grid.set(5, 4, Cell::wall());
    let mut api = SandApi::new(&mut grid, 5, 5, 2);
    update_fire(&mut api);
    assert_eq!(grid.get(4, 4), cell(Species::Fire, 0, 49, 2));
    assert_eq!(grid.get(5, 5), cell(Species::Empty, 0, 0, 2));

    // roll = (1 + 1) * 3 = 6: flicker; odd seed: right, though the
    // generation is odd too
    let mut grid = Grid::new(9, 9);
    grid.set(5, 5, cell(Species::Fire, 1, 50, 0));
    grid.set(5, 4, Cell::wall());
    let mut api = SandApi::new(&mut grid, 5, 5, 1);
    update_fire(&mut api);
    assert_eq!(grid.get(6, 4), cell(Species::Fire, 1, 49, 1));

    // roll = (3 + 1) * 3 = 12: flicker; odd seed: right, though on odd
    // generations the fallback would try right first anyway; block right
    let mut grid = Grid::new(9, 9);
    grid.set(5, 5, cell(Species::Fire, 1, 50, 0));
    grid.set(5, 4, Cell::wall());
    grid.set(6, 4, Cell::wall());
    let mut api = SandApi::new(&mut grid, 5, 5, 3);
    update_fire(&mut api);
    assert_eq!(grid.get(4, 4), cell(Species::Fire, 1, 49, 3));
}

#[test]
fn fire_rule_falls_back_on_the_diagonals_by_generation_parity() {
    // roll = (1 + 4) * 3 = 15: no flicker. Odd generation: right first.
    let mut grid = Grid::new(9, 9);
    grid.set(5, 5, cell(Species::Fire, 4, 50, 0));
    grid.set(5, 4, Cell::wall());
    let mut api = SandApi::new(&mut grid, 5, 5, 1);
    update_fire(&mut api);
    assert_eq!(grid.get(6, 4), cell(Species::Fire, 4, 49, 1));

    // roll = (2 + 3) * 3 = 15: no flicker. Even generation: left first.
    let mut grid = Grid::new(9, 9);
    grid.set(5, 5, cell(Species::Fire, 3, 50, 0));
    grid.set(5, 4, Cell::wall());
    let mut api = SandApi::new(&mut grid, 5, 5, 2);
    update_fire(&mut api);
    assert_eq!(grid.get(4, 4), cell(Species::Fire, 3, 49, 2));
}

#[test]
fn fire_rule_ages_in_place_when_blocked() {
    let mut grid = Grid::new(9, 9);
    grid.set(5, 5, cell(Species::Fire, 4, 50, 0));
    grid.set(4, 4, Cell::wall());
    grid.set(5, 4, Cell::wall());
    grid.set(6, 4, Cell::wall());
    let mut api = SandApi::new(&mut grid, 5, 5, 1);
    update_fire(&mut api);
    assert_eq!(grid.get(5, 5), cell(Species::Fire, 4, 49, 1));
}

// ── Smoke ──

#[test]
fn smoke_rule_at_zero_lifetime_becomes_empty() {
    let mut grid = Grid::new(9, 9);
    grid.set(5, 5, cell(Species::Smoke, 9, 0, 0));
    let mut api = SandApi::new(&mut grid, 5, 5, 4);
    update_smoke(&mut api);
    assert_eq!(grid.get(5, 5), cell(Species::Empty, 0, 0, 4));
    assert_eq!(grid.get(5, 4), Cell::empty());
}

#[test]
fn smoke_rule_laminar_rises_straight() {
    // roll = (1 + 1) * 7 % 10 = 4
    let mut grid = Grid::new(9, 9);
    grid.set(5, 5, cell(Species::Smoke, 1, 200, 0));
    let mut api = SandApi::new(&mut grid, 5, 5, 1);
    update_smoke(&mut api);
    assert_eq!(grid.get(5, 4), cell(Species::Smoke, 1, 199, 1));
    assert_eq!(grid.get(5, 5), cell(Species::Empty, 0, 0, 1));
}

#[test]
fn smoke_rule_laminar_lingers_one_time_in_ten() {
    // roll = (3 + 7) * 7 % 10 = 0
    let mut grid = Grid::new(9, 9);
    grid.set(5, 5, cell(Species::Smoke, 7, 200, 0));
    let mut api = SandApi::new(&mut grid, 5, 5, 3);
    update_smoke(&mut api);
    assert_eq!(grid.get(5, 5), cell(Species::Smoke, 7, 199, 3));
    assert_eq!(grid.get(5, 4), Cell::empty());
}

#[test]
fn smoke_rule_laminar_takes_a_diagonal_when_blocked_above() {
    // odd seed: right first
    let mut grid = Grid::new(9, 9);
    grid.set(5, 5, cell(Species::Smoke, 1, 121, 0));
    grid.set(5, 4, Cell::wall());
    let mut api = SandApi::new(&mut grid, 5, 5, 1);
    update_smoke(&mut api);
    assert_eq!(grid.get(6, 4), cell(Species::Smoke, 1, 120, 1));

    // right blocked too: left
    let mut grid = Grid::new(9, 9);
    grid.set(5, 5, cell(Species::Smoke, 1, 121, 0));
    grid.set(5, 4, Cell::wall());
    grid.set(6, 4, Cell::wall());
    let mut api = SandApi::new(&mut grid, 5, 5, 1);
    update_smoke(&mut api);
    assert_eq!(grid.get(4, 4), cell(Species::Smoke, 1, 120, 1));

    // all blocked: ages in place
    let mut grid = Grid::new(9, 9);
    grid.set(5, 5, cell(Species::Smoke, 1, 121, 0));
    grid.set(5, 4, Cell::wall());
    grid.set(6, 4, Cell::wall());
    grid.set(4, 4, Cell::wall());
    let mut api = SandApi::new(&mut grid, 5, 5, 1);
    update_smoke(&mut api);
    assert_eq!(grid.get(5, 5), cell(Species::Smoke, 1, 120, 1));
}

#[test]
fn smoke_rule_turbulent_stalls_six_times_in_ten() {
    // lifetime 120 is turbulent. roll = (1 + 1) * 7 % 10 = 4: stall;
    // 2 is no multiple of 5: the seed stays
    let mut grid = Grid::new(9, 9);
    grid.set(5, 5, cell(Species::Smoke, 1, 120, 0));
    let mut api = SandApi::new(&mut grid, 5, 5, 1);
    update_smoke(&mut api);
    assert_eq!(grid.get(5, 5), cell(Species::Smoke, 1, 119, 1));
    assert_eq!(grid.get(5, 4), Cell::empty());

    // roll = (2 + 3) * 7 % 10 = 5: stall; 5 is a multiple of 5: new seed 3 + 2
    let mut grid = Grid::new(9, 9);
    grid.set(5, 5, cell(Species::Smoke, 3, 100, 0));
    let mut api = SandApi::new(&mut grid, 5, 5, 2);
    update_smoke(&mut api);
    assert_eq!(grid.get(5, 5), cell(Species::Smoke, 5, 99, 2));
}

#[test]
fn smoke_rule_turbulent_rises_when_it_does_not_stall() {
    // roll = (1 + 3) * 7 % 10 = 8; 4 is no multiple of 3: straight up
    let mut grid = Grid::new(9, 9);
    grid.set(5, 5, cell(Species::Smoke, 3, 100, 0));
    let mut api = SandApi::new(&mut grid, 5, 5, 1);
    update_smoke(&mut api);
    assert_eq!(grid.get(5, 4), cell(Species::Smoke, 3, 99, 1));
    assert_eq!(grid.get(5, 5), cell(Species::Empty, 0, 0, 1));

    // seed 8, generation 10: roll = 18 * 7 % 10 = 6, and 18 is a multiple
    // of 3: diagonal drift on the side of the seed, which is even: left
    let mut grid = Grid::new(9, 9);
    grid.set(5, 5, cell(Species::Smoke, 8, 100, 0));
    let mut api = SandApi::new(&mut grid, 5, 5, 10);
    update_smoke(&mut api);
    assert_eq!(grid.get(4, 4), cell(Species::Smoke, 8, 99, 10));
    assert_eq!(grid.get(5, 4), Cell::empty());
    assert_eq!(grid.get(5, 5), cell(Species::Empty, 0, 0, 10));
}

#[test]
fn smoke_rule_turbulent_fallbacks_in_order() {
    // seed 3, generation 1: roll 8, no drift. Above blocked: right diagonal.
    let mut grid = Grid::new(9, 9);
    grid.set(5, 5, cell(Species::Smoke, 3, 100, 0));
    grid.set(5, 4, Cell::wall());
    let mut api = SandApi::new(&mut grid, 5, 5, 1);
    update_smoke(&mut api);
    assert_eq!(grid.get(6, 4), cell(Species::Smoke, 3, 99, 1));

    // right diagonal blocked too: left diagonal
    let mut grid = Grid::new(9, 9);
    grid.set(5, 5, cell(Species::Smoke, 3, 100, 0));
    grid.set(5, 4, Cell::wall());
    grid.set(6, 4, Cell::wall());
    let mut api = SandApi::new(&mut grid, 5, 5, 1);
    update_smoke(&mut api);
    assert_eq!(grid.get(4, 4), cell(Species::Smoke, 3, 99, 1));

    // all three blocked by walls: sideways on the side of the seed
    let mut grid = Grid::new(9, 9);
    grid.set(5, 5, cell(Species::Smoke, 3, 100, 0));
    grid.set(5, 4, Cell::wall());
    grid.set(6, 4, Cell::wall());
    grid.set(4, 4, Cell::wall());
    let mut api = SandApi::new(&mut grid, 5, 5, 1);
    update_smoke(&mut api);
    assert_eq!(grid.get(6, 5), cell(Species::Smoke, 3, 99, 1));
    assert_eq!(grid.get(5, 5), cell(Species::Empty, 0, 0, 1));

    // that side blocked as well: stuck, the seed's low bit flips
    let mut grid = Grid::new(9, 9);
    grid.set(5, 5, cell(Species::Smoke, 3, 100, 0));
    grid.set(5, 4, Cell::wall());
    grid.set(6, 4, Cell::wall());
    grid.set(4, 4, Cell::wall());
    grid.set(6, 5, Cell::wall());
    let mut api = SandApi::new(&mut grid, 5, 5, 1);
    update_smoke(&mut api);
    assert_eq!(grid.get(5, 5), cell(Species::Smoke, 2, 99, 1));
    assert_eq!(grid.get(4, 5), Cell::empty());
}

#[test]
fn smoke_rule_turbulent_overtakes_older_smoke_above() {
    let mut grid = Grid::new(9, 9);
    grid.set(5, 5, cell(Species::Smoke, 3, 100, 0));
    grid.set(5, 4, cell(Species::Smoke, 40, 20, 0));
    grid.set(6, 4, Cell::wall());
    grid.set(4, 4, Cell::wall());
    let mut api = SandApi::new(&mut grid, 5, 5, 1);
    update_smoke(&mut api);
    assert_eq!(grid.get(5, 5), cell(Species::Smoke, 40, 20, 1));
    assert_eq!(grid.get(5, 4), cell(Species::Smoke, 3, 99, 1));

    // younger smoke above is not overtaken: sideways instead
    let mut grid = Grid::new(9, 9);
    grid.set(5, 5, cell(Species::Smoke, 3, 100, 0));
    grid.set(5, 4, cell(Species::Smoke, 40, 100, 0));
    grid.set(6, 4, Cell::wall());
    grid.set(4, 4, Cell::wall());
    let mut api = SandApi::new(&mut grid, 5, 5, 1);
    update_smoke(&mut api);
    assert_eq!(grid.get(5, 4), cell(Species::Smoke, 40, 100, 0));
    assert_eq!(grid.get(6, 5), cell(Species::Smoke, 3, 99, 1));
}

// ── Specter and dispatch ──

#[test]
fn ghost_rule_does_nothing() {
    let mut grid = Grid::new(5, 5);
    grid.set(2, 2, cell(Species::Specter, 1, 2, 3));
    let before = grid.cells.clone();
    let mut api = SandApi::new(&mut grid, 2, 2, 6);
    update_ghost(&mut api);
    assert_eq!(grid.cells, before);
}

#[test]
fn update_cell_dispatches_on_the_species_given() {
    let mut grid = Grid::new(5, 5);
    grid.set(2, 2, cell(Species::Sand, 0, 0, 0));
    let mut api = SandApi::new(&mut grid, 2, 2, 4);
    update_cell(Species::Sand, &mut api);
    assert_eq!(grid.get(2, 3).species, Species::Sand);

    let mut grid = Grid::new(5, 5);
    grid.set(2, 2, cell(Species::Fire, 4, 50, 0));
    let mut api = SandApi::new(&mut grid, 2, 2, 1);
    update_cell(Species::Fire, &mut api);
    assert_eq!(grid.get(2, 1), cell(Species::Fire, 4, 49, 1));

    let mut grid = Grid::new(5, 5);
    grid.set(2, 2, cell(Species::Water, 4, 0, 0));
    let mut api = SandApi::new(&mut grid, 2, 2, 1);
    update_cell(Species::Water, &mut api);
    assert_eq!(grid.get(2, 3), cell(Species::Water, 4, 0, 1));

    let mut grid = Grid::new(5, 5);
    grid.set(2, 2, cell(Species::Smoke, 1, 200, 0));
    let mut api = SandApi::new(&mut grid, 2, 2, 1);
    update_cell(Species::Smoke, &mut api);
    assert_eq!(grid.get(2, 1), cell(Species::Smoke, 1, 199, 1));

    for species in [Species::Empty, Species::Wall, Species::Specter] {
        let mut grid = Grid::new(5, 5);
        grid.set(2, 2, cell(species, 1, 2, 3));
        let before = grid.cells.clone();
        let mut api = SandApi::new(&mut grid, 2, 2, 1);
        update_cell(species, &mut api);
        assert_eq!(grid.cells, before);
    }
}
