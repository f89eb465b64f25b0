use fluid_sim::{
    empty_on_line, last_air_of, texture_bytes, Cell, Grid, SimSquareRef, Simulation, WaterData,
    MAX_FILL,
};

fn open_grid(width: i32, height: i32) -> Grid {
    Grid::new(width, height, Cell::Air).unwrap()
}

fn still_water() -> Cell {
    Cell::Water(WaterData { fill: 0, inertia_horiz: 0, inertia_vert: 0 })
}

#[test]
fn diagonal_line_runs_to_its_end_through_air() {
    let mut grid = open_grid(6, 6);
    let state = SimSquareRef { sim: &mut grid, start_coord_x: 0, start_coord_y: 0 };
    assert_eq!(empty_on_line(0, 0, 5, 5, &state), (5, 5));
    assert_eq!(empty_on_line(0, 0, 3, 3, &state), (3, 3));
    assert_eq!(empty_on_line(2, 2, 0, 0, &state), (2, 2));
}

#[test]
fn line_stops_before_the_first_obstacle() {
    let mut grid = open_grid(6, 6);
    assert!(grid.set(3, 3, Cell::Solid));
    assert!(grid.set(4, 0, still_water()));
    let state = SimSquareRef { sim: &mut grid, start_coord_x: 0, start_coord_y: 0 };
    assert_eq!(empty_on_line(0, 0, 5, 5, &state), (2, 2));
    assert_eq!(empty_on_line(0, 0, 5, 0, &state), (3, 0));
    assert_eq!(empty_on_line(3, 0, 2, 0, &state), (3, 0));
    assert_eq!(empty_on_line(5, 5, -5, -5, &state), (4, 4));
}

#[test]
fn line_stops_at_the_edge_of_the_grid() {
    let mut grid = open_grid(4, 4);
    let state = SimSquareRef { sim: &mut grid, start_coord_x: 0, start_coord_y: 0 };
    assert_eq!(empty_on_line(1, 1, 7, 0, &state), (3, 1));
    assert_eq!(empty_on_line(1, 1, 0, -7, &state), (1, 0));
    assert_eq!(empty_on_line(0, 0, -3, 0, &state), (0, 0));
}

#[test]
fn line_is_counted_from_the_corner_of_the_square() {
    let mut grid = open_grid(8, 8);
    assert!(grid.set(5, 2, Cell::Solid));
    let state = SimSquareRef { sim: &mut grid, start_coord_x: 2, start_coord_y: 2 };
    assert_eq!(state.get(3, 0), Cell::Solid);
    assert_eq!(state.get(2, 0), Cell::Air);
    assert_eq!(state.get(6, 0), Cell::Solid);
    assert_eq!(state.get(-3, 0), Cell::Solid);
    assert_eq!(state.get(-2, -2), Cell::Air);
    assert_eq!(empty_on_line(0, 0, 5, 0, &state), (2, 0));
    assert_eq!(empty_on_line(0, 0, 0, 9, &state), (0, 5));
}

#[test]
fn steep_line_takes_the_cells_it_crosses() {
    let mut grid = open_grid(8, 8);
    assert!(grid.set(1, 1, Cell::Solid));
    let state = SimSquareRef { sim: &mut grid, start_coord_x: 0, start_coord_y: 0 };
    // The line from (0, 0) to (3, 2) crosses (1, 0), (1, 1), (2, 1), (2, 2).
    assert_eq!(empty_on_line(0, 0, 3, 2, &state), (1, 0));
}

#[test]
fn walk_over_given_points() {
    let mut grid = open_grid(5, 5);
    assert!(grid.set(2, 2, Cell::Solid));
    let state = SimSquareRef { sim: &mut grid, start_coord_x: 0, start_coord_y: 0 };
    assert_eq!(last_air_of((9, 9), &vec![], &state), (9, 9));
    assert_eq!(last_air_of((0, 0), &vec![(1, 1), (2, 2), (3, 3)], &state), (1, 1));
    assert_eq!(last_air_of((0, 0), &vec![(2, 2), (3, 3)], &state), (0, 0));
    assert_eq!(last_air_of((0, 0), &vec![(4, 0), (0, 4), (1, 3)], &state), (1, 3));
    assert_eq!(last_air_of((0, 0), &vec![(4, 0), (5, 0), (1, 3)], &state), (4, 0));
}

#[test]
fn square_gives_mutable_access_inside_the_grid() {
    let mut grid = open_grid(4, 3);
    {
        let mut state = SimSquareRef { sim: &mut grid, start_coord_x: 1, start_coord_y: 1 };
        if let Some(cell) = state.get_mut(2, 1) {
            *cell = Cell::Solid;
        } else {
            panic!("(3, 2) lies inside");
        }
        assert!(state.get_mut(3, 0).is_none());
        assert!(state.get_mut(0, 2).is_none());
        assert!(state.get_mut(-2, 0).is_none());
        assert_eq!(state.get(2, 1), Cell::Solid);
    }
    assert_eq!(grid.get(3, 2), Cell::Solid);
    assert_eq!(grid.get(2, 1), Cell::Air);
    if let Some(cell) = grid.get_mut(0, 0) {
        *cell = still_water();
    }
    assert_eq!(grid.get(0, 0), still_water());
    assert!(grid.get_mut(4, 0).is_none());
    assert!(grid.get_mut(0, -1).is_none());
}

#[test]
fn texture_is_blue_green_red_alpha() {
    assert_eq!(texture_bytes(&vec![]), Vec::<u8>::new());
    assert_eq!(texture_bytes(&vec![0x4433_2211]), vec![0x33, 0x22, 0x11, 0x44]);
    assert_eq!(
        texture_bytes(&vec![0xff00_0000, 0x0000_00ff, 0x0102_0304]),
        vec![0, 0, 0, 0xff, 0, 0, 0xff, 0, 2, 3, 4, 1]
    );
}

#[test]
fn seeding_follows_the_flags_row_by_row() {
    let mut sim = Simulation::new(3, 2, MAX_FILL, 0).unwrap();
    assert!(sim.set(2, 1, Cell::Solid));
    sim.seed(&vec![true, false, false, false, true]);
    assert_eq!(sim.cell_at(0, 0), still_water());
    assert_eq!(sim.cell_at(1, 0), Cell::Air);
    assert_eq!(sim.cell_at(2, 0), Cell::Air);
    assert_eq!(sim.cell_at(0, 1), Cell::Air);
    assert_eq!(sim.cell_at(1, 1), still_water());
    assert_eq!(sim.cell_at(2, 1), Cell::Air);
    sim.seed(&vec![]);
    for y in 0..2 {
        for x in 0..3 {
            assert_eq!(sim.cell_at(x, y), Cell::Air);
        }
    }
}
