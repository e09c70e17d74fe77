use simulation::clock::SimulationClock;
use simulation::diffusion::{thermal_conduction, thermal_conduction_nanos, TRANSFER_COEFFICIENT};
use simulation::grid::Grid;
use simulation::temperature::{HeatCell, Temperature, ThermalConductivity};
use simulation::SimulationRate;
use std::time::Duration;

fn cell(temperature: i64, conductivity: i64) -> HeatCell {
    HeatCell {
        temperature: Temperature { value: temperature },
        conductivity: ThermalConductivity { value: conductivity },
    }
}

fn full(width: u32, height: u32, temperature: i64) -> Grid {
    match Grid::filled(width, height, cell(temperature, 1_000)) {
        Ok(grid) => grid,
        Err(_) => panic!("a grid of positive area"),
    }
}

/// A quantity in the library's unit, thousandths.
fn thousandths(quantity: f32) -> i64 {
    (quantity * 1000.0).round() as i64
}

/// A quantity of the library in whole units.
fn units(thousandths: i64) -> f32 {
    thousandths as f32 / 1000.0
}

fn setup_test_map() -> Grid {
    // Create a 3x3 grid
    let mut grid = match Grid::new(3, 3) {
        Ok(grid) => grid,
        Err(_) => panic!("a grid of positive area"),
    };
    for x in 0..3u32 {
        for y in 0..3u32 {
            let mut heat_cell = HeatCell::default();

            // Set center tile to hot, others to cool
            if x == 1 && y == 1 {
                heat_cell.temperature.value = thousandths(100.0); // Center tile is hot
            } else {
                heat_cell.temperature.value = thousandths(20.0); // Surrounding tiles are cool
            }
            assert!(grid.set_cell(x, y, heat_cell));
        }
    }
    grid
}

fn temperatures(grid: &Grid) -> Vec<Option<i64>> {
    let mut all: Vec<Option<i64>> = Vec::new();
    for y in 0..grid.height() {
        for x in 0..grid.width() {
            all.push(grid.temperature(x, y));
        }
    }
    all
}

#[test]
fn test_thermal_conduction() {
    let mut grid = setup_test_map();
    // A very short simulation rate for testing
    let mut simulation_rate = SimulationRate { rate: SimulationClock::new(Duration::from_millis(1)) };

    // Run for a few frames to let heat transfer occur
    for _ in 0..5 {
        assert!(thermal_conduction(&mut grid, &mut simulation_rate, Duration::from_millis(16)));
    }

    // Check center tile (should have cooled down)
    let center_tile = grid.cell(1, 1).unwrap();
    assert!(units(center_tile.temperature.value) < 100.0, "Center tile should have cooled down");

    // Check surrounding tiles (should have warmed up)
    for x in 0..3u32 {
        for y in 0..3u32 {
            if x != 1 || y != 1 {
                let heat_cell = grid.cell(x, y).unwrap();
                assert!(
                    units(heat_cell.temperature.value) > 20.0,
                    "Surrounding tiles should have warmed up"
                );
            }
        }
    }

    // Five ticks of 16 ms at the coefficient of one half, to the thousandth.
    assert_eq!(
        temperatures(&grid),
        vec![
            Some(20_088), Some(22_864), Some(20_088),
            Some(22_864), Some(88_192), Some(22_864),
            Some(20_088), Some(22_864), Some(20_088),
        ]
    );
}

#[test]
fn one_tick_moves_exactly_the_net_of_the_pairwise_transfers() {
    let mut grid = setup_test_map();
    // Per visit: 1.0 * (20 - 100) * 0.2 * 0.5 * 0.5 = -4 degrees; each adjacency is
    // visited from both ends, and the center has four of them.
    grid.diffuse(Duration::from_millis(200), TRANSFER_COEFFICIENT);
    assert_eq!(
        temperatures(&grid),
        vec![
            Some(20_000), Some(28_000), Some(20_000),
            Some(28_000), Some(68_000), Some(28_000),
            Some(20_000), Some(28_000), Some(20_000),
        ]
    );
    // Second tick: corners gain 2 * 2 * 0.4 from their two edge neighbors; edges
    // gain 2 * 2 from the center and lose 2 * 2 * 0.4 to their two corners.
    grid.diffuse(Duration::from_millis(200), TRANSFER_COEFFICIENT);
    assert_eq!(
        temperatures(&grid),
        vec![
            Some(21_600), Some(30_400), Some(21_600),
            Some(30_400), Some(52_000), Some(30_400),
            Some(21_600), Some(30_400), Some(21_600),
        ]
    );
}

#[test]
fn heat_is_conserved_by_a_tick() {
    let mut grid = setup_test_map();
    let before: i128 = grid.total_heat();
    for _ in 0..25 {
        grid.diffuse(Duration::from_millis(37), TRANSFER_COEFFICIENT);
        assert_eq!(grid.total_heat(), before);
    }
    assert_eq!(before, 260_000);
    let sum: i64 = temperatures(&grid).iter().map(|t| t.unwrap_or(0)).sum();
    assert_eq!(sum, 260_000);
    assert!(matches!(grid.temperature(1, 1), Some(value) if value < 100_000));
}

#[test]
fn total_heat_counts_cells_only() {
    let mut grid = match Grid::new(3, 2) {
        Ok(grid) => grid,
        Err(_) => panic!("a grid of positive area"),
    };
    assert_eq!(grid.total_heat(), 0);
    assert!(grid.set_cell(2, 1, cell(i64::MAX, 1_000)));
    assert!(grid.set_cell(0, 0, cell(i64::MAX, 1_000)));
    assert!(grid.set_cell(1, 0, cell(-5, 1_000)));
    assert_eq!(grid.total_heat(), 2 * (i64::MAX as i128) - 5);
}

#[test]
fn conductivities_and_vacancies_survive_a_tick() {
    let mut grid = match Grid::new(3, 1) {
        Ok(grid) => grid,
        Err(_) => panic!("a grid of positive area"),
    };
    assert!(grid.set_cell(0, 0, cell(90_000, 500)));
    assert!(grid.set_cell(1, 0, cell(10_000, 1_500)));
    grid.diffuse_nanos(1_000_000_000, 500);
    // (500 + 1500) * (10 - 90) * 1 * 0.5 / 4 per visit = -20 degrees, twice.
    assert_eq!(grid.cell(0, 0), Some(cell(50_000, 500)));
    assert_eq!(grid.cell(1, 0), Some(cell(50_000, 1_500)));
    assert_eq!(grid.cell(2, 0), None);
}

#[test]
fn zero_time_step_changes_nothing() {
    let mut grid = setup_test_map();
    assert!(grid.set_cell(0, 0, cell(i64::MIN, -3)));
    assert!(grid.set_cell(2, 2, cell(i64::MAX, 77)));
    let before = temperatures(&grid);
    grid.diffuse(Duration::ZERO, TRANSFER_COEFFICIENT);
    assert_eq!(temperatures(&grid), before);
    grid.diffuse_nanos(0, i64::MAX);
    assert_eq!(temperatures(&grid), before);
    assert_eq!(grid.cell(0, 0), Some(cell(i64::MIN, -3)));
}

#[test]
fn isolated_and_single_cells_are_unchanged() {
    let mut single = full(1, 1, 42_000);
    single.diffuse(Duration::from_secs(1), TRANSFER_COEFFICIENT);
    assert_eq!(single.temperature(0, 0), Some(42_000));

    let mut sparse = match Grid::new(3, 3) {
        Ok(grid) => grid,
        Err(_) => panic!("a grid of positive area"),
    };
    assert!(sparse.set_cell(0, 0, cell(90_000, 1_000)));
    assert!(sparse.set_cell(2, 2, cell(10_000, 1_000)));
    assert!(sparse.set_cell(1, 1, cell(50_000, 1_000)));
    sparse.diffuse(Duration::from_secs(1), TRANSFER_COEFFICIENT);
    assert_eq!(sparse.temperature(0, 0), Some(90_000));
    assert_eq!(sparse.temperature(1, 1), Some(50_000));
    assert_eq!(sparse.temperature(2, 2), Some(10_000));
}

#[test]
fn isolated_pair_converges_without_oscillating() {
    // coefficient * dt = 0.5 * 0.2 = 0.1 at conductivity 1: well inside the stable range.
    let mut grid = full(2, 1, 0);
    assert!(grid.set_temperature(0, 0, 100_000));
    let mut gap: i64 = 100_000;
    for _ in 0..200 {
        grid.diffuse(Duration::from_millis(200), TRANSFER_COEFFICIENT);
        let a = grid.temperature(0, 0).unwrap_or(0);
        let b = grid.temperature(1, 0).unwrap_or(0);
        let next = a - b;
        assert!(next >= 0);
        assert!(next <= gap);
        assert_eq!(a + b, 100_000);
        gap = next;
    }
    // A gap below 0.02 degrees no longer moves a thousandth per visit.
    assert_eq!(gap, 16);
    assert_eq!(grid.temperature(0, 0), Some(50_008));
    assert_eq!(grid.temperature(1, 0), Some(49_992));

    let mut upright = full(1, 2, 0);
    assert!(upright.set_temperature(0, 1, -100_000));
    upright.diffuse(Duration::from_millis(200), TRANSFER_COEFFICIENT);
    // gap' = gap * (1 - 2 * 0.1)
    assert_eq!(upright.temperature(0, 0), Some(-10_000));
    assert_eq!(upright.temperature(0, 1), Some(-90_000));
}

#[test]
fn isolated_pair_stops_exactly_at_the_edge_of_the_stable_range() {
    // 2 * conductivity * coefficient * dt = 1: the pair meets in the middle in one tick.
    let mut grid = full(2, 1, 0);
    assert!(grid.set_temperature(0, 0, 100_000));
    grid.diffuse(Duration::from_secs(1), TRANSFER_COEFFICIENT);
    assert_eq!(grid.temperature(0, 0), Some(50_000));
    assert_eq!(grid.temperature(1, 0), Some(50_000));
}

#[test]
fn isolated_pair_overshoots_beyond_the_stable_range() {
    // coefficient * dt = 0.75 is below one, yet at conductivity 1 the gap changes sign:
    // gap' = gap * (1 - 2 * 0.75).
    let mut grid = full(2, 1, 0);
    assert!(grid.set_temperature(0, 0, 100_000));
    grid.diffuse(Duration::from_millis(1_500), TRANSFER_COEFFICIENT);
    assert_eq!(grid.temperature(0, 0), Some(25_000));
    assert_eq!(grid.temperature(1, 0), Some(75_000));
}

#[test]
fn neighbors_of_a_hot_interior_cell_change_more_than_corners() {
    let mut grid = full(5, 5, 20_000);
    assert!(grid.set_temperature(2, 2, 100_000));
    grid.diffuse(Duration::from_millis(200), TRANSFER_COEFFICIENT);
    for (x, y) in [(3u32, 2u32), (2, 3), (1, 2), (2, 1)] {
        assert_eq!(grid.temperature(x, y), Some(28_000));
    }
    for (x, y) in [(0u32, 0u32), (4, 0), (0, 4), (4, 4)] {
        assert_eq!(grid.temperature(x, y), Some(20_000));
    }
    assert_eq!(grid.temperature(2, 2), Some(68_000));

    let mut small = full(3, 3, 20_000);
    assert!(small.set_temperature(1, 1, 20_004));
    small.diffuse(Duration::from_secs(1), TRANSFER_COEFFICIENT);
    // Per visit 4 thousandths * 0.25 = 1 thousandth: the smallest transfer that survives rounding.
    assert_eq!(small.temperature(1, 0), Some(20_002));
    assert_eq!(small.temperature(0, 0), Some(20_000));
}

#[test]
fn temperatures_saturate_at_the_bounds() {
    // Far outside the stable range the pairwise transfer is capped at i64::MAX in
    // magnitude and applied twice, which carries a temperature past the bounds of i64.
    let mut low = full(2, 1, 0);
    assert!(low.set_cell(0, 0, cell(i64::MIN + 5, i64::MAX)));
    assert!(low.set_cell(1, 0, cell(i64::MIN, i64::MAX)));
    low.diffuse_nanos(u128::MAX, i64::MAX);
    assert_eq!(low.temperature(0, 0), Some(i64::MIN));
    assert_eq!(low.temperature(1, 0), Some(i64::MAX - 1));

    let mut high = full(2, 1, 0);
    assert!(high.set_cell(0, 0, cell(i64::MAX, i64::MAX)));
    assert!(high.set_cell(1, 0, cell(i64::MAX - 5, i64::MAX)));
    high.diffuse_nanos(u128::MAX, i64::MAX);
    assert_eq!(high.temperature(0, 0), Some(-i64::MAX));
    assert_eq!(high.temperature(1, 0), Some(i64::MAX));
}

#[test]
fn conduction_is_gated_by_the_clock() {
    let mut grid = setup_test_map();
    let mut simulation_rate = SimulationRate::default();
    let initial = temperatures(&grid);
    for _ in 0..12 {
        assert!(!thermal_conduction(&mut grid, &mut simulation_rate, Duration::from_millis(16)));
        assert_eq!(temperatures(&grid), initial);
    }
    assert_eq!(simulation_rate.rate.accumulated, 192_000_000);
    assert!(thermal_conduction(&mut grid, &mut simulation_rate, Duration::from_millis(16)));
    assert_eq!(simulation_rate.rate.accumulated, 8_000_000);
    // One step over the frame time of 16 ms: 80 * 0.016 * 0.5 * 0.5 = 0.32 per visit.
    assert_eq!(grid.temperature(1, 1), Some(97_440));
    assert_eq!(grid.temperature(1, 0), Some(20_640));
    assert_eq!(grid.temperature(0, 0), Some(20_000));
    assert!(!thermal_conduction(&mut grid, &mut simulation_rate, Duration::from_millis(16)));
    assert_eq!(grid.temperature(1, 1), Some(97_440));
}

#[test]
fn conduction_in_nanoseconds_matches_conduction_in_durations() {
    let mut by_duration = setup_test_map();
    let mut by_nanos = setup_test_map();
    let mut rate_a = SimulationRate { rate: SimulationClock::from_nanos(30_000_000) };
    let mut rate_b = SimulationRate { rate: SimulationClock::from_nanos(30_000_000) };
    for _ in 0..10 {
        let fired_a = thermal_conduction(&mut by_duration, &mut rate_a, Duration::from_millis(16));
        let fired_b = thermal_conduction_nanos(&mut by_nanos, &mut rate_b, 16_000_000);
        assert_eq!(fired_a, fired_b);
        assert_eq!(temperatures(&by_duration), temperatures(&by_nanos));
        assert_eq!(rate_a, rate_b);
    }
    assert_eq!(TRANSFER_COEFFICIENT, 500);
}

#[test]
fn damped_steps_stay_between_the_extremes_and_conserve_heat() {
    // Conductivities up to 1, coefficient one half, steps of half a second:
    // 4 * 1 * 0.5 * 0.5 = 1, the edge of the damped range.
    let mut grid = full(4, 3, 0);
    let mut seed: i64 = 12_345;
    for y in 0..3u32 {
        for x in 0..4u32 {
            seed = (seed * 1_103_515_245 + 12_345) % 2_147_483_648;
            let temperature: i64 = seed % 200_001 - 100_000;
            let conductivity: i64 = (seed / 7) % 1_001;
            assert!(grid.set_cell(x, y, cell(temperature, conductivity)));
        }
    }
    let before = temperatures(&grid);
    let low: i64 = before.iter().map(|t| t.unwrap_or(0)).min().unwrap_or(0);
    let high: i64 = before.iter().map(|t| t.unwrap_or(0)).max().unwrap_or(0);
    let heat: i128 = grid.total_heat();
    assert!(low < 0 && high > 0);
    for _ in 0..300 {
        grid.diffuse(Duration::from_millis(500), TRANSFER_COEFFICIENT);
        for temperature in temperatures(&grid) {
            assert!(matches!(temperature, Some(value) if low <= value && value <= high));
        }
        assert_eq!(grid.total_heat(), heat);
    }
}

#[test]
fn steps_beyond_the_damped_range_overshoot() {
    // 4 * 1 * 0.5 * 2 = 4: the center falls below every temperature the grid started with.
    let mut grid = setup_test_map();
    grid.diffuse(Duration::from_secs(2), TRANSFER_COEFFICIENT);
    assert_eq!(grid.temperature(1, 1), Some(-220_000));
    assert_eq!(grid.temperature(1, 0), Some(100_000));
    assert_eq!(grid.total_heat(), 260_000);
}
