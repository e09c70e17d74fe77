use simulation::clock::{SimulationClock, DEFAULT_INTERVAL_NANOS};
use simulation::SimulationRate;
use std::time::Duration;

#[test]
fn default_rate_is_200_milliseconds() {
    let rate = SimulationRate::default();
    assert_eq!(rate.rate.interval, 200_000_000);
    assert_eq!(rate.rate.interval, DEFAULT_INTERVAL_NANOS);
    assert_eq!(rate.rate.accumulated, 0);
}

#[test]
fn new_reads_the_interval_in_nanoseconds() {
    let clock = SimulationClock::new(Duration::from_millis(200));
    assert_eq!(clock.interval, 200_000_000);
    assert_eq!(clock.accumulated, 0);
    assert_eq!(clock, SimulationClock::from_nanos(200_000_000));
}

#[test]
fn tick_adds_the_time_step() {
    let mut clock = SimulationClock::from_nanos(200_000_000);
    clock.tick(Duration::from_millis(16));
    assert_eq!(clock.accumulated, 16_000_000);
    clock.tick(Duration::from_micros(5));
    assert_eq!(clock.accumulated, 16_005_000);
    clock.tick_nanos(7);
    assert_eq!(clock.accumulated, 16_005_007);
    assert_eq!(clock.interval, 200_000_000);
}

#[test]
fn tick_saturates() {
    let mut clock = SimulationClock::from_nanos(10);
    clock.tick_nanos(u128::MAX - 3);
    clock.tick_nanos(5);
    assert_eq!(clock.accumulated, u128::MAX);
}

#[test]
fn gate_stays_closed_below_the_interval() {
    let mut clock = SimulationClock::from_nanos(200_000_000);
    for _ in 0..12 {
        assert!(!clock.advance(Duration::from_millis(16)));
    }
    assert_eq!(clock.accumulated, 192_000_000);
}

#[test]
fn gate_opens_once_on_crossing_and_keeps_the_remainder() {
    let mut clock = SimulationClock::from_nanos(200_000_000);
    for _ in 0..12 {
        assert!(!clock.advance(Duration::from_millis(16)));
    }
    assert!(clock.advance(Duration::from_millis(16)));
    assert_eq!(clock.accumulated, 8_000_000);
    assert!(!clock.consume_due());
    assert_eq!(clock.accumulated, 8_000_000);
    assert!(!clock.advance(Duration::from_millis(16)));
    assert_eq!(clock.accumulated, 24_000_000);
}

#[test]
fn consume_due_fires_exactly_at_the_interval() {
    let mut clock = SimulationClock::from_nanos(100);
    clock.tick_nanos(99);
    assert!(!clock.consume_due());
    assert_eq!(clock.accumulated, 99);
    clock.tick_nanos(1);
    assert!(clock.consume_due());
    assert_eq!(clock.accumulated, 0);
    assert!(!clock.consume_due());
}

#[test]
fn gate_never_catches_up() {
    let mut clock = SimulationClock::from_nanos(200_000_000);
    clock.tick(Duration::from_millis(500));
    assert!(clock.consume_due());
    assert_eq!(clock.accumulated, 300_000_000);
    assert!(clock.consume_due());
    assert_eq!(clock.accumulated, 100_000_000);
    assert!(!clock.consume_due());
    assert_eq!(clock.accumulated, 100_000_000);
}

#[test]
fn zero_interval_is_always_due() {
    let mut clock = SimulationClock::from_nanos(0);
    assert!(clock.consume_due());
    assert!(clock.advance_nanos(5));
    assert_eq!(clock.accumulated, 5);
}
