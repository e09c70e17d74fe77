use simulation::grid::{Direction, Grid, GridError};
use simulation::temperature::{HeatCell, Temperature, ThermalConductivity};

fn cell(temperature: i64) -> HeatCell {
    HeatCell {
        temperature: Temperature { value: temperature },
        conductivity: ThermalConductivity { value: 1_000 },
    }
}

fn full(width: u32, height: u32) -> Grid {
    match Grid::filled(width, height, cell(20_000)) {
        Ok(grid) => grid,
        Err(_) => panic!("a grid of positive area"),
    }
}

#[test]
fn zero_area_is_rejected() {
    assert!(matches!(Grid::new(0, 3), Err(GridError::ZeroArea)));
    assert!(matches!(Grid::new(3, 0), Err(GridError::ZeroArea)));
    assert!(matches!(Grid::new(0, 0), Err(GridError::ZeroArea)));
    assert!(matches!(Grid::filled(0, 1, cell(0)), Err(GridError::ZeroArea)));
    assert!(matches!(Grid::new(1, 1), Ok(_)));
}

#[test]
fn too_many_slots_are_rejected() {
    // Only a target whose `usize` is narrower than 64 bits can meet such a grid.
    let slots: u64 = (u32::MAX as u64) * (u32::MAX as u64);
    if slots > usize::MAX as u64 {
        assert!(matches!(Grid::new(u32::MAX, u32::MAX), Err(GridError::TooLarge)));
    } else {
        assert!(usize::BITS >= 64);
    }
}

#[test]
fn new_grid_is_vacant() {
    let grid = match Grid::new(4, 3) {
        Ok(grid) => grid,
        Err(_) => panic!("a grid of positive area"),
    };
    assert_eq!(grid.width(), 4);
    assert_eq!(grid.height(), 3);
    assert_eq!(grid.slots(), 12);
    for y in 0..3u32 {
        for x in 0..4u32 {
            assert_eq!(grid.cell(x, y), None);
            assert_eq!(grid.temperature(x, y), None);
            assert_eq!(grid.neighbors(x, y), vec![]);
        }
    }
}

#[test]
fn filled_grid_holds_the_cell_everywhere() {
    let grid = full(4, 3);
    for y in 0..3u32 {
        for x in 0..4u32 {
            assert_eq!(grid.cell(x, y), Some(cell(20_000)));
            assert_eq!(grid.temperature(x, y), Some(20_000));
        }
    }
    assert_eq!(grid.cell(4, 0), None);
    assert_eq!(grid.cell(0, 3), None);
}

#[test]
fn index_is_row_major() {
    let grid = full(4, 3);
    assert_eq!(grid.index(0, 0), Some(0));
    assert_eq!(grid.index(3, 0), Some(3));
    assert_eq!(grid.index(0, 1), Some(4));
    assert_eq!(grid.index(2, 1), Some(6));
    assert_eq!(grid.index(3, 2), Some(11));
    assert_eq!(grid.index(4, 0), None);
    assert_eq!(grid.index(0, 3), None);
    assert!(grid.in_bounds(3, 2));
    assert!(!grid.in_bounds(4, 2));
    assert!(!grid.in_bounds(3, 3));
}

#[test]
fn set_cell_places_within_bounds_only() {
    let mut grid = full(2, 2);
    assert!(grid.set_cell(1, 0, cell(55_000)));
    assert_eq!(grid.cell(1, 0), Some(cell(55_000)));
    assert_eq!(grid.cell(0, 0), Some(cell(20_000)));
    assert_eq!(grid.cell(0, 1), Some(cell(20_000)));
    assert_eq!(grid.cell(1, 1), Some(cell(20_000)));
    assert!(!grid.set_cell(2, 0, cell(1)));
    assert!(!grid.set_cell(0, 2, cell(1)));
    assert_eq!(grid.cell(0, 0), Some(cell(20_000)));
}

#[test]
fn set_temperature_keeps_the_conductivity() {
    let mut grid = match Grid::new(2, 1) {
        Ok(grid) => grid,
        Err(_) => panic!("a grid of positive area"),
    };
    let special = HeatCell {
        temperature: Temperature { value: 1 },
        conductivity: ThermalConductivity { value: 250 },
    };
    assert!(grid.set_cell(0, 0, special));
    assert!(grid.set_temperature(0, 0, 99_000));
    assert_eq!(
        grid.cell(0, 0),
        Some(HeatCell {
            temperature: Temperature { value: 99_000 },
            conductivity: ThermalConductivity { value: 250 },
        })
    );
    assert!(!grid.set_temperature(1, 0, 5));
    assert_eq!(grid.cell(1, 0), None);
    assert!(!grid.set_temperature(7, 7, 5));
}

#[test]
fn interior_cell_has_four_neighbors_in_visiting_order() {
    let grid = full(3, 3);
    assert_eq!(grid.neighbors(1, 1), vec![(2, 1), (1, 2), (0, 1), (1, 0)]);
}

#[test]
fn edge_cell_has_three_neighbors() {
    let grid = full(3, 3);
    assert_eq!(grid.neighbors(1, 0), vec![(2, 0), (1, 1), (0, 0)]);
    assert_eq!(grid.neighbors(0, 1), vec![(1, 1), (0, 2), (0, 0)]);
    assert_eq!(grid.neighbors(2, 1), vec![(2, 2), (1, 1), (2, 0)]);
    assert_eq!(grid.neighbors(1, 2), vec![(2, 2), (0, 2), (1, 1)]);
}

#[test]
fn corner_cell_has_two_neighbors() {
    let grid = full(3, 3);
    assert_eq!(grid.neighbors(0, 0), vec![(1, 0), (0, 1)]);
    assert_eq!(grid.neighbors(2, 0), vec![(2, 1), (1, 0)]);
    assert_eq!(grid.neighbors(0, 2), vec![(1, 2), (0, 1)]);
    assert_eq!(grid.neighbors(2, 2), vec![(1, 2), (2, 1)]);
}

#[test]
fn single_cell_grid_has_no_neighbors() {
    let grid = full(1, 1);
    assert_eq!(grid.neighbors(0, 0), vec![]);
}

#[test]
fn coordinates_without_a_cell_have_no_neighbors() {
    let grid = full(3, 3);
    assert_eq!(grid.neighbors(3, 1), vec![]);
    assert_eq!(grid.neighbors(1, 3), vec![]);
    assert_eq!(grid.neighbors(u32::MAX, u32::MAX), vec![]);

    let mut partial = match Grid::new(3, 3) {
        Ok(grid) => grid,
        Err(_) => panic!("a grid of positive area"),
    };
    assert!(partial.set_cell(0, 1, cell(1)));
    assert!(partial.set_cell(2, 1, cell(1)));
    assert_eq!(partial.neighbors(1, 1), vec![]);
}

#[test]
fn vacant_slots_are_nobodys_neighbor() {
    let mut grid = match Grid::new(3, 3) {
        Ok(grid) => grid,
        Err(_) => panic!("a grid of positive area"),
    };
    assert!(grid.set_cell(1, 1, cell(1)));
    assert_eq!(grid.neighbors(1, 1), vec![]);
    assert!(grid.set_cell(1, 2, cell(2)));
    assert!(grid.set_cell(0, 1, cell(3)));
    assert_eq!(grid.neighbors(1, 1), vec![(1, 2), (0, 1)]);
    assert_eq!(grid.neighbors(1, 2), vec![(1, 1)]);
}

#[test]
fn neighbor_follows_one_direction() {
    let grid = full(3, 2);
    assert_eq!(grid.neighbor(0, 0, Direction::East), Some((1, 0)));
    assert_eq!(grid.neighbor(0, 0, Direction::North), Some((0, 1)));
    assert_eq!(grid.neighbor(0, 0, Direction::West), None);
    assert_eq!(grid.neighbor(0, 0, Direction::South), None);
    assert_eq!(grid.neighbor(2, 1, Direction::East), None);
    assert_eq!(grid.neighbor(2, 1, Direction::North), None);
    assert_eq!(grid.neighbor(2, 1, Direction::West), Some((1, 1)));
    assert_eq!(grid.neighbor(2, 1, Direction::South), Some((2, 0)));
    assert_eq!(grid.neighbor(3, 0, Direction::West), None);
    assert_eq!(grid.neighbor(u32::MAX, 0, Direction::East), None);
}

#[test]
fn opposite_leads_back() {
    assert_eq!(Direction::East.opposite(), Direction::West);
    assert_eq!(Direction::West.opposite(), Direction::East);
    assert_eq!(Direction::North.opposite(), Direction::South);
    assert_eq!(Direction::South.opposite(), Direction::North);
}
