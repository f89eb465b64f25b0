use fluid_sim::{
    needs_coin, rule, rule_with_coin, Cell, ConfigError, Deltas, Grid, Neighborhood, Simulation,
    TickError, WaterData, FILL_CAP, INERTIA_CAP, MAX_DIM, MAX_FILL,
};
use rand::rngs::StdRng;
use rand::SeedableRng;

fn water(fill: i32) -> Cell {
    Cell::Water(WaterData { fill, inertia_horiz: 0, inertia_vert: 0 })
}

fn fill_at(sim: &Simulation, x: i32, y: i32) -> i32 {
    match sim.cell_at(x, y) {
        Cell::Water(w) => w.fill,
        other => panic!("no water at ({}, {}): {:?}", x, y, other),
    }
}

fn walled(center: Cell) -> Neighborhood {
    Neighborhood {
        above_left: Cell::Solid,
        above: Cell::Solid,
        above_right: Cell::Solid,
        left: Cell::Solid,
        center,
        right: Cell::Solid,
        below_left: Cell::Solid,
        below: Cell::Solid,
        below_right: Cell::Solid,
    }
}

fn row(fills: &[i32]) -> Simulation {
    let mut sim = Simulation::new(fills.len() as i32, 1, MAX_FILL, 0).unwrap();
    for (x, f) in fills.iter().enumerate() {
        assert!(sim.set(x as i32, 0, water(*f)));
    }
    sim
}

fn column(fills: &[i32]) -> Simulation {
    let mut sim = Simulation::new(1, fills.len() as i32, MAX_FILL, 0).unwrap();
    for (y, f) in fills.iter().enumerate() {
        assert!(sim.set(0, y as i32, water(*f)));
    }
    sim
}

fn total(sim: &Simulation) -> i64 {
    let mut sum = 0i64;
    for y in 0..sim.height() {
        for x in 0..sim.width() {
            if let Cell::Water(w) = sim.cell_at(x, y) {
                sum += w.fill as i64;
            }
        }
    }
    sum
}

fn cells(sim: &Simulation) -> Vec<Cell> {
    let mut all = Vec::new();
    for y in 0..sim.height() {
        for x in 0..sim.width() {
            all.push(sim.cell_at(x, y));
        }
    }
    all
}

fn pond(seed: u64) -> Simulation {
    let mut sim = Simulation::new(9, 7, MAX_FILL, 0).unwrap();
    let mut state = seed;
    for y in 0..7 {
        for x in 0..9 {
            state = state.wrapping_mul(6364136223846793005).wrapping_add(1442695040888963407);
            let pick = (state >> 33) % 10;
            let cell = if pick < 2 {
                Cell::Solid
            } else if pick < 3 {
                Cell::Air
            } else {
                Cell::Water(WaterData {
                    fill: ((state >> 40) % 41) as i32,
                    inertia_horiz: ((state >> 20) % 7) as i32 - 3,
                    inertia_vert: ((state >> 10) % 7) as i32 - 3,
                })
            };
            assert!(sim.set(x, y, cell));
        }
    }
    sim
}

#[test]
fn lower_neighbour_beside_a_wall_gets_half_the_difference() {
    let mut sim = Simulation::new(3, 1, MAX_FILL, 0).unwrap();
    assert!(sim.set(0, 0, water(10)));
    assert!(sim.set(1, 0, water(20)));
    assert!(sim.set(2, 0, Cell::Solid));
    assert_eq!(sim.advance_tick_with(&vec![]), Ok(()));
    assert_eq!(fill_at(&sim, 0, 0), 15);
    assert_eq!(fill_at(&sim, 1, 0), 15);
    assert_eq!(sim.cell_at(2, 0), Cell::Solid);
}

#[test]
fn grid_edge_acts_as_the_wall() {
    let mut sim = row(&[10, 20]);
    assert_eq!(sim.advance_tick_with(&vec![]), Ok(()));
    assert_eq!(fill_at(&sim, 0, 0), 15);
    assert_eq!(fill_at(&sim, 1, 0), 15);
}

#[test]
fn water_falls_into_the_empty_cell_below() {
    let mut sim = column(&[10, 0]);
    assert_eq!(sim.advance_tick_with(&vec![]), Ok(()));
    assert_eq!(fill_at(&sim, 0, 0), 0);
    assert_eq!(fill_at(&sim, 0, 1), 10);
}

#[test]
fn gravity_fills_only_up_to_capacity() {
    let mut sim = column(&[10, 28]);
    assert_eq!(sim.advance_tick_with(&vec![]), Ok(()));
    assert_eq!(fill_at(&sim, 0, 0), 6);
    assert_eq!(fill_at(&sim, 0, 1), 32);
}

#[test]
fn gravity_does_not_reach_air() {
    let mut sim = Simulation::new(1, 2, MAX_FILL, 0).unwrap();
    assert!(sim.set(0, 0, water(10)));
    assert_eq!(sim.advance_tick_with(&vec![]), Ok(()));
    assert_eq!(fill_at(&sim, 0, 0), 10);
    assert_eq!(sim.cell_at(0, 1), Cell::Air);
}

#[test]
fn overfull_cell_relieves_pressure_upward() {
    let mut sim = column(&[0, 35]);
    assert_eq!(sim.advance_tick_with(&vec![]), Ok(()));
    assert_eq!(fill_at(&sim, 0, 1), 34);
    assert_eq!(fill_at(&sim, 0, 0), 1);
}

#[test]
fn full_cell_is_not_overfull() {
    let mut sim = column(&[0, 32]);
    assert_eq!(sim.advance_tick_with(&vec![]), Ok(()));
    assert_eq!(fill_at(&sim, 0, 1), 32);
    assert_eq!(fill_at(&sim, 0, 0), 0);
}

#[test]
fn saturated_column_pushes_one_unit_down() {
    let mut sim = column(&[33, 32]);
    assert_eq!(sim.advance_tick_with(&vec![]), Ok(()));
    assert_eq!(fill_at(&sim, 0, 0), 32);
    assert_eq!(fill_at(&sim, 0, 1), 33);
}

#[test]
fn inertia_carries_water_on() {
    let mut nb = walled(Cell::Water(WaterData { fill: 10, inertia_horiz: 5, inertia_vert: 0 }));
    nb.right = water(10);
    let d = rule_with_coin(&nb, MAX_FILL, 0, false);
    assert_eq!(d.center, -4);
    assert_eq!(d.right, 4);
    assert_eq!(d.get(1, 0), 4);
    assert_eq!(d.get(0, 0), -4);
    assert_eq!(d.left, 0);
    assert_eq!(d.above, 0);
    assert_eq!(d.below, 0);
}

#[test]
fn inertia_carries_water_on_in_a_tick() {
    let mut sim = Simulation::new(2, 1, MAX_FILL, 0).unwrap();
    assert!(sim.set(0, 0, Cell::Water(WaterData { fill: 10, inertia_horiz: 5, inertia_vert: 0 })));
    assert!(sim.set(1, 0, water(10)));
    assert_eq!(sim.advance_tick_with(&vec![]), Ok(()));
    assert_eq!(fill_at(&sim, 0, 0), 6);
    assert_eq!(fill_at(&sim, 1, 0), 14);
    assert_eq!(
        sim.cell_at(1, 0),
        Cell::Water(WaterData { fill: 14, inertia_horiz: 4, inertia_vert: 0 })
    );
    assert_eq!(
        sim.cell_at(0, 0),
        Cell::Water(WaterData { fill: 6, inertia_horiz: 5, inertia_vert: 0 })
    );
}

#[test]
fn leftward_and_upward_inertia() {
    let mut nb = walled(Cell::Water(WaterData { fill: 10, inertia_horiz: -3, inertia_vert: -20 }));
    nb.left = water(30);
    nb.above = water(30);
    let d = rule_with_coin(&nb, MAX_FILL, 0, false);
    assert_eq!(d.left, 2);
    assert_eq!(d.above, 8);
    assert_eq!(d.center, -10);
    assert_eq!(d.right, 0);
    assert_eq!(d.below, 0);
}

#[test]
fn inertia_of_one_moves_nothing() {
    let mut nb = walled(Cell::Water(WaterData { fill: 10, inertia_horiz: 1, inertia_vert: 1 }));
    nb.right = water(10);
    nb.below = water(32);
    let d = rule_with_coin(&nb, MAX_FILL, 0, false);
    assert!(d.is_zero());
}

#[test]
fn painted_water_is_empty_and_inert() {
    let mut sim = Simulation::new(3, 3, MAX_FILL, 0).unwrap();
    for y in 0..3 {
        for x in 0..3 {
            assert!(sim.set(x, y, Cell::Solid));
        }
    }
    assert!(sim.paint_region(1, 1, 0, Cell::Water(WaterData::default())));
    assert_eq!(
        sim.cell_at(1, 1),
        Cell::Water(WaterData { fill: 0, inertia_horiz: 0, inertia_vert: 0 })
    );
    assert_eq!(sim.cell_at(0, 1), Cell::Solid);
    assert_eq!(sim.cell_at(1, 0), Cell::Solid);
    let before = cells(&sim);
    let mut rng = StdRng::seed_from_u64(1);
    assert_eq!(sim.advance_tick(&mut rng), Ok(()));
    assert_eq!(cells(&sim), before);
}

#[test]
fn brush_is_a_square_clipped_to_the_grid() {
    let mut sim = Simulation::new(6, 5, MAX_FILL, 0).unwrap();
    assert!(sim.paint_region(0, 4, 1, water(7)));
    for y in 0..5 {
        for x in 0..6 {
            let expected = if x <= 1 && y >= 3 { water(7) } else { Cell::Air };
            assert_eq!(sim.cell_at(x, y), expected);
        }
    }
    assert!(sim.paint_region(100, 100, 3, Cell::Solid));
    assert!(sim.paint_region(3, 2, -1, Cell::Solid));
    assert_eq!(sim.cell_at(3, 2), Cell::Air);
    assert!(sim.paint_region(i32::MAX, i32::MIN, i32::MAX, Cell::Solid));
    assert_eq!(sim.cell_at(5, 0), Cell::Air);
    assert_eq!(sim.cell_at(0, 0), Cell::Air);
    assert!(sim.paint_region(i32::MAX, 0, i32::MAX, Cell::Solid));
    for y in 0..5 {
        for x in 0..6 {
            assert_eq!(sim.cell_at(x, y), Cell::Solid);
        }
    }
}

#[test]
fn invalid_cells_are_refused() {
    let mut sim = Simulation::new(2, 2, MAX_FILL, 0).unwrap();
    assert!(!sim.set(0, 0, water(-1)));
    assert!(!sim.set(0, 0, water(FILL_CAP + 1)));
    assert!(!sim.set(
        0,
        0,
        Cell::Water(WaterData { fill: 1, inertia_horiz: INERTIA_CAP + 1, inertia_vert: 0 })
    ));
    assert!(!sim.paint_region(0, 0, 5, water(-1)));
    assert_eq!(sim.cell_at(0, 0), Cell::Air);
    assert!(sim.set(0, 0, water(FILL_CAP)));
    assert!(!water(-1).is_valid());
    assert!(water(0).is_valid());
    assert!(Cell::Air.is_valid());
}

#[test]
fn reads_outside_are_walls_and_writes_outside_are_dropped() {
    let mut sim = Simulation::new(2, 3, MAX_FILL, 0).unwrap();
    assert_eq!(sim.cell_at(-1, 0), Cell::Solid);
    assert_eq!(sim.cell_at(0, -1), Cell::Solid);
    assert_eq!(sim.cell_at(2, 0), Cell::Solid);
    assert_eq!(sim.cell_at(0, 3), Cell::Solid);
    assert_eq!(sim.cell_at(i32::MIN, i32::MAX), Cell::Solid);
    assert_eq!(sim.cell_at(1, 2), Cell::Air);
    assert!(!sim.set(2, 0, water(1)));
    assert!(!sim.set(0, 3, water(1)));
    assert!(!sim.set(-1, -1, water(1)));
    assert!(sim.set(1, 2, water(1)));
    assert_eq!(sim.cell_at(1, 2), water(1));
    assert_eq!(sim.cell_at(0, 2), Cell::Air);
    assert_eq!(sim.cell_at(1, 1), Cell::Air);
}

#[test]
fn grid_stores_by_column_and_row() {
    let mut grid = Grid::new(3, 2, Cell::Air).unwrap();
    assert_eq!(grid.width(), 3);
    assert_eq!(grid.height(), 2);
    assert!(grid.set(2, 1, water(5)));
    assert!(grid.set(0, 1, Cell::Solid));
    assert!(!grid.set(1, 2, water(5)));
    assert_eq!(grid.get(2, 1), water(5));
    assert_eq!(grid.get(0, 1), Cell::Solid);
    assert_eq!(grid.get(1, 1), Cell::Air);
    assert_eq!(grid.get(2, 0), Cell::Air);
    assert_eq!(grid.get(3, 0), Cell::Solid);
    let mut copy = Grid::new(1, 1, Cell::Solid).unwrap();
    grid.clone_into(&mut copy);
    assert_eq!(copy.width(), 3);
    assert_eq!(copy.height(), 2);
    assert_eq!(copy.get(2, 1), water(5));
    assert!(grid.set(2, 1, Cell::Air));
    assert_eq!(copy.get(2, 1), water(5));
    let mut other = Grid::new(1, 1, Cell::Solid).unwrap();
    copy.swap(&mut other);
    assert_eq!(copy.width(), 1);
    assert_eq!(copy.get(0, 0), Cell::Solid);
    assert_eq!(other.width(), 3);
    assert_eq!(other.get(2, 1), water(5));
    other.swap(&mut copy);
    let nb = grid.window(0, 0);
    assert_eq!(nb.above_left, Cell::Solid);
    assert_eq!(nb.left, Cell::Solid);
    assert_eq!(nb.below_left, Cell::Solid);
    assert_eq!(nb.center, Cell::Air);
    assert_eq!(nb.below, Cell::Solid);
    assert_eq!(nb.get(0, 1), Cell::Solid);
    assert_eq!(nb.get(1, 1), Cell::Air);
    assert_eq!(nb.get(2, 0), Cell::Solid);
}

#[test]
fn new_grid_holds_the_given_cell_everywhere() {
    let grid = Grid::new(4, 3, water(9)).unwrap();
    for y in 0..3 {
        for x in 0..4 {
            assert_eq!(grid.get(x, y), water(9));
        }
    }
}

#[test]
fn malformed_configuration_is_rejected() {
    assert_eq!(Simulation::new(0, 5, 32, 0).err(), Some(ConfigError::EmptyGrid));
    assert_eq!(Simulation::new(5, 0, 32, 0).err(), Some(ConfigError::EmptyGrid));
    assert_eq!(Simulation::new(-3, 5, 32, 0).err(), Some(ConfigError::EmptyGrid));
    assert_eq!(Simulation::new(5, -1, 0, 0).err(), Some(ConfigError::EmptyGrid));
    assert_eq!(Simulation::new(MAX_DIM + 1, 5, 32, 0).err(), Some(ConfigError::GridTooLarge));
    assert_eq!(Simulation::new(5, MAX_DIM + 1, 0, 0).err(), Some(ConfigError::GridTooLarge));
    assert_eq!(Simulation::new(5, 5, 0, 0).err(), Some(ConfigError::BadCapacity));
    assert_eq!(Simulation::new(5, 5, -32, 0).err(), Some(ConfigError::BadCapacity));
    assert_eq!(Grid::new(0, 1, Cell::Air).err(), Some(ConfigError::EmptyGrid));
    assert_eq!(Grid::new(1, MAX_DIM + 1, Cell::Air).err(), Some(ConfigError::GridTooLarge));
    let sim = Simulation::new(5, 4, 32, 2).unwrap();
    assert_eq!(sim.width(), 5);
    assert_eq!(sim.height(), 4);
    assert_eq!(sim.max_fill(), 32);
    assert_eq!(sim.remain_min(), 2);
    assert_eq!(sim.snapshot().get(4, 3), Cell::Air);
}

#[test]
fn overflowing_tick_fails_and_changes_nothing() {
    let mut sim = Simulation::new(1, 2, i32::MAX, 0).unwrap();
    assert!(sim.set(0, 0, water(FILL_CAP)));
    assert!(sim.set(0, 1, water(1)));
    let before = cells(&sim);
    assert_eq!(sim.advance_tick_with(&vec![]), Err(TickError::Overflow));
    assert_eq!(cells(&sim), before);
    let mut rng = StdRng::seed_from_u64(3);
    assert_eq!(sim.advance_tick(&mut rng), Err(TickError::Overflow));
    assert_eq!(cells(&sim), before);
    assert!(sim.set(0, 1, water(0)));
    assert_eq!(sim.advance_tick_with(&vec![]), Ok(()));
    assert_eq!(fill_at(&sim, 0, 1), FILL_CAP);
}

#[test]
fn coin_places_the_odd_unit() {
    let mut heads = row(&[0, 3, 0]);
    assert_eq!(heads.advance_tick_with(&vec![false, true, false]), Ok(()));
    assert_eq!(fill_at(&heads, 0, 0), 2);
    assert_eq!(fill_at(&heads, 1, 0), 0);
    assert_eq!(fill_at(&heads, 2, 0), 1);
    let mut tails = row(&[0, 3, 0]);
    assert_eq!(tails.advance_tick_with(&vec![true, false, true]), Ok(()));
    assert_eq!(fill_at(&tails, 0, 0), 1);
    assert_eq!(fill_at(&tails, 2, 0), 2);
    let mut short = row(&[0, 3, 0]);
    assert_eq!(short.advance_tick_with(&vec![true]), Ok(()));
    assert_eq!(fill_at(&short, 0, 0), 1);
    assert_eq!(fill_at(&short, 2, 0), 2);
}

#[test]
fn coins_are_laid_out_row_by_row() {
    let mut sim = Simulation::new(3, 2, MAX_FILL, 0).unwrap();
    for x in 0..3 {
        assert!(sim.set(x, 0, Cell::Solid));
    }
    assert!(sim.set(0, 1, water(0)));
    assert!(sim.set(1, 1, water(3)));
    assert!(sim.set(2, 1, water(0)));
    assert_eq!(sim.advance_tick_with(&vec![false, false, false, false, true, false]), Ok(()));
    assert_eq!(fill_at(&sim, 0, 1), 2);
    assert_eq!(fill_at(&sim, 2, 1), 1);
}

#[test]
fn lower_side_is_levelled_first() {
    let mut nb = walled(water(10));
    nb.left = water(2);
    nb.right = water(6);
    assert!(!needs_coin(&nb, MAX_FILL, 0));
    let d = rule_with_coin(&nb, MAX_FILL, 0, true);
    assert_eq!(d.left, 6);
    assert_eq!(d.right, 2);
    assert_eq!(d.center, -8);
    let mut odd = walled(water(10));
    odd.left = water(2);
    odd.right = water(5);
    assert!(needs_coin(&odd, MAX_FILL, 0));
    let d = rule_with_coin(&odd, MAX_FILL, 0, true);
    assert_eq!((d.left, d.right, d.center), (6, 2, -8));
    let d = rule_with_coin(&odd, MAX_FILL, 0, false);
    assert_eq!((d.left, d.right, d.center), (5, 3, -8));
    let mut mirrored = walled(water(10));
    mirrored.left = water(5);
    mirrored.right = water(2);
    let d = rule_with_coin(&mirrored, MAX_FILL, 0, true);
    assert_eq!((d.left, d.right, d.center), (3, 5, -8));
}

#[test]
fn remaining_bias_raises_the_budget_up_to_the_fill() {
    let mut nb = walled(water(10));
    nb.left = water(4);
    nb.right = water(12);
    let d = rule_with_coin(&nb, MAX_FILL, 0, false);
    assert_eq!((d.left, d.right, d.center), (6, 0, -6));
    let d = rule_with_coin(&nb, MAX_FILL, 3, false);
    assert_eq!((d.left, d.right, d.center), (9, 0, -9));
    let d = rule_with_coin(&nb, MAX_FILL, 30, false);
    assert_eq!((d.left, d.right, d.center), (10, 0, -10));
    let d = rule_with_coin(&nb, MAX_FILL, -30, false);
    assert!(d.is_zero());
    nb.left = water(12);
    nb.right = water(4);
    let d = rule_with_coin(&nb, MAX_FILL, 0, false);
    assert_eq!((d.left, d.right, d.center), (0, 6, -6));
}

#[test]
fn one_sided_share_is_at_least_one() {
    let mut nb = walled(water(5));
    nb.right = water(4);
    let d = rule_with_coin(&nb, MAX_FILL, 0, false);
    assert_eq!((d.left, d.right, d.center), (0, 1, -1));
    nb.right = water(5);
    assert!(rule_with_coin(&nb, MAX_FILL, 0, false).is_zero());
    nb.right = Cell::Air;
    nb.left = water(1);
    let d = rule_with_coin(&nb, MAX_FILL, 0, false);
    assert_eq!((d.left, d.right, d.center), (2, 0, -2));
}

#[test]
fn steps_run_in_order_on_what_is_left() {
    let mut nb = walled(Cell::Water(WaterData { fill: 20, inertia_horiz: 4, inertia_vert: 0 }));
    nb.right = water(30);
    nb.below = water(25);
    nb.left = water(0);
    let d = rule_with_coin(&nb, MAX_FILL, 0, false);
    assert_eq!(d.right, 3);
    assert_eq!(d.below, 7);
    assert_eq!(d.left, 10);
    assert_eq!(d.center, -20);
    assert_eq!(d.above_left + d.above_right + d.below_left + d.below_right, 0);
}

#[test]
fn cells_that_do_not_act() {
    assert!(rule_with_coin(&walled(Cell::Solid), MAX_FILL, 0, true).is_zero());
    assert!(rule_with_coin(&walled(Cell::Air), MAX_FILL, 0, true).is_zero());
    let mut nb = walled(water(0));
    nb.left = water(0);
    nb.below = water(0);
    assert!(rule_with_coin(&nb, MAX_FILL, 0, true).is_zero());
    assert!(!needs_coin(&nb, MAX_FILL, 0));
    assert_eq!(Deltas::zero().get(0, 0), 0);
    assert_eq!(Deltas::zero().get(5, 5), 0);
}

#[test]
fn rule_with_a_generator_agrees_with_one_of_the_coins() {
    let mut odd = walled(water(10));
    odd.left = water(2);
    odd.right = water(5);
    let mut rng = StdRng::seed_from_u64(11);
    let mut seen_left = false;
    let mut seen_right = false;
    for _ in 0..64 {
        let d = rule(&odd, MAX_FILL, 0, &mut rng);
        let a = rule_with_coin(&odd, MAX_FILL, 0, true);
        let b = rule_with_coin(&odd, MAX_FILL, 0, false);
        assert!(d == a || d == b);
        seen_left = seen_left || d == a;
        seen_right = seen_right || d == b;
    }
    assert!(seen_left && seen_right);
    let mut even = walled(water(10));
    even.left = water(2);
    even.right = water(6);
    assert_eq!(rule(&even, MAX_FILL, 0, &mut rng), rule_with_coin(&even, MAX_FILL, 0, false));
}

#[test]
fn fill_is_never_negative() {
    for seed in 0..20u64 {
        let mut sim = pond(seed);
        let mut rng = StdRng::seed_from_u64(seed);
        for _ in 0..30 {
            assert_eq!(sim.advance_tick(&mut rng), Ok(()));
            for cell in cells(&sim) {
                if let Cell::Water(w) = cell {
                    assert!(w.fill >= 0);
                }
                assert!(cell.is_valid());
            }
        }
    }
}

#[test]
fn total_fill_is_conserved() {
    for seed in 0..20u64 {
        let mut sim = pond(seed);
        let mut rng = StdRng::seed_from_u64(seed + 100);
        let start = total(&sim);
        assert_eq!(sim.total_fill(), start);
        for _ in 0..30 {
            assert_eq!(sim.advance_tick(&mut rng), Ok(()));
            assert_eq!(total(&sim), start);
            assert_eq!(sim.total_fill(), start);
        }
    }
}

#[test]
fn total_fill_counts_water_only() {
    let mut sim = Simulation::new(3, 2, MAX_FILL, 0).unwrap();
    assert_eq!(sim.total_fill(), 0);
    assert!(sim.set(0, 0, water(7)));
    assert!(sim.set(2, 1, water(35)));
    assert!(sim.set(1, 1, Cell::Solid));
    assert_eq!(sim.total_fill(), 42);
}

#[test]
fn walls_and_air_never_change() {
    let mut sim = pond(5);
    let before = cells(&sim);
    let mut rng = StdRng::seed_from_u64(5);
    for _ in 0..10 {
        assert_eq!(sim.advance_tick(&mut rng), Ok(()));
    }
    let after = cells(&sim);
    for (a, b) in before.iter().zip(after.iter()) {
        match (a, b) {
            (Cell::Water(_), Cell::Water(_)) => {}
            (x, y) => assert_eq!(x, y),
        }
    }
}

#[test]
fn level_layer_is_at_rest() {
    let mut sim = Simulation::new(5, 3, MAX_FILL, 0).unwrap();
    for x in 0..5 {
        assert!(sim.set(x, 1, Cell::Solid));
    }
    for x in 1..4 {
        assert!(sim.set(x, 0, water(17)));
    }
    assert!(sim.set(0, 2, water(17)));
    assert!(sim.set(4, 2, water(17)));
    let before = cells(&sim);
    let mut rng = StdRng::seed_from_u64(9);
    assert_eq!(sim.advance_tick(&mut rng), Ok(()));
    assert_eq!(cells(&sim), before);
    assert_eq!(sim.advance_tick_with(&vec![true; 15]), Ok(()));
    assert_eq!(cells(&sim), before);
}

#[test]
fn nothing_is_sent_across_the_edge() {
    let sim = pond(3);
    let grid = sim.snapshot();
    for y in 0..sim.height() {
        for x in 0..sim.width() {
            let nb = grid.window(x, y);
            for coin in [false, true] {
                let d = rule_with_coin(&nb, MAX_FILL, 0, coin);
                for dy in -1..=1 {
                    for dx in -1..=1 {
                        let outside = x + dx < 0
                            || x + dx >= sim.width()
                            || y + dy < 0
                            || y + dy >= sim.height();
                        if outside {
                            assert_eq!(d.get(dx, dy), 0);
                        }
                        if d.get(dx, dy) != 0 && (dx, dy) != (0, 0) {
                            assert!(matches!(nb.get(dx, dy), Cell::Water(_)));
                        }
                    }
                }
            }
        }
    }
}

#[test]
fn same_grid_and_same_seed_give_the_same_run() {
    let mut a = pond(8);
    let mut b = pond(8);
    let mut rng_a = StdRng::seed_from_u64(77);
    let mut rng_b = StdRng::seed_from_u64(77);
    for _ in 0..25 {
        assert_eq!(a.advance_tick(&mut rng_a), b.advance_tick(&mut rng_b));
        assert_eq!(cells(&a), cells(&b));
    }
    let mut c = pond(8);
    let mut d = pond(8);
    let coins: Vec<bool> = (0..63).map(|k| k % 3 == 0).collect();
    for _ in 0..25 {
        assert_eq!(c.advance_tick_with(&coins), d.advance_tick_with(&coins));
        assert_eq!(cells(&c), cells(&d));
    }
}

#[test]
fn inertia_is_cleared_where_the_fill_stays() {
    let mut sim = Simulation::new(1, 1, MAX_FILL, 0).unwrap();
    assert!(sim.set(0, 0, Cell::Water(WaterData { fill: 4, inertia_horiz: 9, inertia_vert: -9 })));
    assert_eq!(sim.advance_tick_with(&vec![]), Ok(()));
    assert_eq!(
        sim.cell_at(0, 0),
        Cell::Water(WaterData { fill: 4, inertia_horiz: 0, inertia_vert: 0 })
    );
}

#[test]
fn arriving_water_sets_the_inertia_of_its_direction() {
    let mut sim = column(&[10, 0]);
    assert_eq!(sim.advance_tick_with(&vec![]), Ok(()));
    assert_eq!(
        sim.cell_at(0, 1),
        Cell::Water(WaterData { fill: 10, inertia_horiz: 0, inertia_vert: 10 })
    );
    let mut sim = row(&[10, 20]);
    assert_eq!(sim.advance_tick_with(&vec![]), Ok(()));
    assert_eq!(
        sim.cell_at(0, 0),
        Cell::Water(WaterData { fill: 15, inertia_horiz: -5, inertia_vert: 0 })
    );
    let mut sim = column(&[0, 35]);
    assert_eq!(sim.advance_tick_with(&vec![]), Ok(()));
    assert_eq!(
        sim.cell_at(0, 0),
        Cell::Water(WaterData { fill: 1, inertia_horiz: 0, inertia_vert: -1 })
    );
}

#[test]
fn several_sources_add_up_in_one_cell() {
    let mut sim = Simulation::new(3, 2, MAX_FILL, 0).unwrap();
    for x in 0..3 {
        assert!(sim.set(x, 1, Cell::Solid));
    }
    assert!(sim.set(0, 0, water(20)));
    assert!(sim.set(1, 0, water(0)));
    assert!(sim.set(2, 0, water(30)));
    assert_eq!(sim.advance_tick_with(&vec![]), Ok(()));
    assert_eq!(fill_at(&sim, 0, 0), 10);
    assert_eq!(fill_at(&sim, 1, 0), 25);
    assert_eq!(fill_at(&sim, 2, 0), 15);
    assert_eq!(
        sim.cell_at(1, 0),
        Cell::Water(WaterData { fill: 25, inertia_horiz: -5, inertia_vert: 0 })
    );
}

#[test]
fn water_record_access() {
    let mut cell = water(3);
    assert_eq!(cell.water().map(|w| w.fill), Some(3));
    if let Some(w) = cell.water_mut() {
        w.fill = 8;
    }
    assert_eq!(cell, water(8));
    let mut wall = Cell::Solid;
    assert!(wall.water().is_none());
    assert!(wall.water_mut().is_none());
    assert!(Cell::Air.water().is_none());
    assert_eq!(WaterData::default(), WaterData { fill: 0, inertia_horiz: 0, inertia_vert: 0 });
}
