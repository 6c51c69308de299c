use speedometer::{Entry, Speedometer};
use std::collections::VecDeque;
use std::time::{Duration, Instant};

const SECOND: u128 = 1_000_000_000;

/// Spins until `span` has passed on the monotonic clock.
fn wait(span: Duration) {
    let start = Instant::now();
    while start.elapsed() <= span {
        std::hint::spin_loop();
    }
}

#[test]
fn measures_entries() {
    let window_size = Duration::from_secs(1);
    let mut meter = Speedometer::new(window_size);
    meter.entry(10);
    meter.entry(10);
    meter.entry(10);
    assert!(meter.measure() > 0, "bytes per second should be non-zero");
    wait(window_size);
    assert_eq!(meter.measure(), 0);
}

#[test]
fn no_entries() {
    let window_size = Duration::from_secs(1);
    let mut meter = Speedometer::new(window_size);
    assert_eq!(meter.measure(), 0, "should not crash on empty queue");
}

#[test]
fn no_entries_at_any_time() {
    let mut meter = Speedometer::new(Duration::from_secs(1));
    assert_eq!(meter.measure_at(0, SECOND), 0);
    assert_eq!(meter.measure_at(7 * SECOND, SECOND), 0);
    assert_eq!(meter.measure_at(7 * SECOND, 0), 0);
}

#[test]
fn average_of_equal_values() {
    let mut meter = Speedometer::default();
    meter.entry(10);
    meter.entry(10);
    meter.entry(10);
    assert_eq!(meter.measure(), 10);
}

#[test]
fn average_rounds_down() {
    let mut meter = Speedometer::new(Duration::from_secs(1));
    meter.entry_at(0, 10);
    meter.entry_at(1, 10);
    meter.entry_at(2, 12);
    assert_eq!(meter.measure_at(3, SECOND), 10);
    meter.entry_at(3, 4);
    assert_eq!(meter.measure_at(4, SECOND), 9);
}

#[test]
fn one_among_zeros_measures_zero() {
    let mut meter = Speedometer::new(Duration::from_secs(1));
    meter.entry_at(0, 1);
    meter.entry_at(0, 0);
    meter.entry_at(0, 0);
    assert_eq!(meter.measure_at(0, SECOND), 0);
}

#[test]
fn positive_values_measure_positive() {
    let mut meter = Speedometer::new(Duration::from_secs(1));
    meter.entry_at(5, 1);
    assert_eq!(meter.measure_at(5, SECOND), 1);
    meter.entry_at(6, 3);
    meter.entry_at(7, 1);
    assert_eq!(meter.measure_at(8, SECOND), 1);
}

#[test]
fn never_negative_and_at_most_the_sum() {
    let mut meter = Speedometer::new(Duration::from_secs(1));
    meter.entry_at(0, 0);
    assert_eq!(meter.measure_at(0, SECOND), 0);
    meter.entry_at(1, 7);
    let rate = meter.measure_at(1, SECOND);
    assert_eq!(rate, 3);
    assert!(rate <= 7);
}

#[test]
fn age_equal_to_the_window_still_counts() {
    let mut meter = Speedometer::new(Duration::from_secs(1));
    meter.entry_at(0, 10);
    meter.entry_at(0, 10);
    meter.entry_at(0, 10);
    assert_eq!(meter.measure_at(SECOND, SECOND), 10);
    assert_eq!(meter.measure_at(SECOND + 1, SECOND), 0);
}

#[test]
fn decays_to_zero_and_stays_there() {
    let mut meter = Speedometer::new(Duration::from_secs(1));
    meter.entry_at(10, 10);
    meter.entry_at(20, 20);
    meter.entry_at(30, 30);
    assert_eq!(meter.measure_at(30 + SECOND, SECOND), 30);
    assert_eq!(meter.measure_at(31 + SECOND, SECOND), 0);
    assert_eq!(meter.measure_at(32 + SECOND, SECOND), 0);
    assert_eq!(meter.measure_at(0, SECOND), 0);
}

#[test]
fn all_stale_at_once_empties_the_queue() {
    let mut meter = Speedometer::new(Duration::from_secs(1));
    meter.entry_at(0, 10);
    meter.entry_at(1, 10);
    meter.entry_at(2, 10);
    assert_eq!(meter.measure_at(5 * SECOND, SECOND), 0);
    meter.entry_at(5 * SECOND, 4);
    assert_eq!(meter.measure_at(5 * SECOND, SECOND), 4);
}

#[test]
fn evicts_the_stale_prefix_only() {
    let mut meter = Speedometer::new(Duration::from_secs(1));
    meter.entry_at(0, 10);
    meter.entry_at(500, 20);
    meter.entry_at(1000, 40);
    assert_eq!(meter.measure_at(1000, 600), 30);
    assert_eq!(meter.measure_at(1000, 600), 30);
    assert_eq!(meter.measure_at(1101, 600), 40);
    assert_eq!(meter.measure_at(1601, 600), 0);
}

#[test]
fn eviction_is_permanent() {
    let mut meter = Speedometer::new(Duration::from_secs(1));
    meter.entry_at(0, 100);
    meter.entry_at(900, 2);
    assert_eq!(meter.measure_at(1000, 500), 2);
    assert_eq!(meter.measure_at(1000, 5000), 2);
}

#[test]
fn stale_entry_behind_a_fresh_one_stays() {
    let mut meter = Speedometer::new(Duration::from_secs(1));
    meter.entry_at(100, 5);
    meter.entry_at(0, 7);
    assert_eq!(meter.measure_at(120, 50), 6);
    assert_eq!(meter.measure_at(151, 50), 0);
}

#[test]
fn timestamp_ahead_of_the_clock_has_age_zero() {
    let mut meter = Speedometer::new(Duration::from_secs(1));
    meter.entry_at(1000, 8);
    assert_eq!(meter.measure_at(10, 0), 8);
    assert_eq!(meter.measure_at(1000, 0), 8);
    assert_eq!(meter.measure_at(1001, 0), 0);
}

#[test]
fn zero_window_evicts_as_soon_as_time_passes() {
    let mut meter = Speedometer::new(Duration::from_secs(0));
    meter.entry(10);
    wait(Duration::from_millis(1));
    assert_eq!(meter.measure(), 0);
}

#[test]
fn window_size_is_a_plain_field() {
    let mut meter = Speedometer::new(Duration::from_secs(3600));
    assert_eq!(meter.window_size, Duration::from_secs(3600));
    meter.entry(6);
    meter.entry(9);
    wait(Duration::from_millis(2));
    assert_eq!(meter.measure(), 7);
    meter.window_size = Duration::from_millis(1);
    assert_eq!(meter.measure(), 0);
}

#[test]
fn window_is_measured_in_nanoseconds() {
    let mut meter = Speedometer::new(Duration::from_secs(1));
    meter.entry(10);
    wait(Duration::from_millis(2));
    assert_eq!(meter.measure(), 10);
}

#[test]
fn clock_is_read_in_nanoseconds() {
    let mut meter = Speedometer::new(Duration::from_micros(100));
    meter.entry(10);
    wait(Duration::from_millis(1));
    assert_eq!(meter.measure(), 0);
}

#[test]
fn default_window_is_five_seconds() {
    let mut meter = Speedometer::default();
    assert_eq!(meter.window_size, Duration::from_secs(5));
    assert_eq!(meter.window_size.as_nanos(), 5 * SECOND);
    assert_eq!(meter.measure(), 0);
}

#[test]
fn capacity_is_no_limit() {
    let mut meter = Speedometer::with_capacity(Duration::from_secs(1), 2);
    assert_eq!(meter.window_size, Duration::from_secs(1));
    assert_eq!(meter.measure(), 0);
    for i in 0..100 {
        meter.entry_at(i, 3);
    }
    assert_eq!(meter.measure_at(100, SECOND), 3);
}

#[test]
fn reuses_an_empty_queue() {
    let queue: VecDeque<Entry> = VecDeque::with_capacity(16);
    let mut meter = Speedometer::with_queue(Duration::from_secs(2), queue);
    assert_eq!(meter.window_size, Duration::from_secs(2));
    assert_eq!(meter.measure(), 0);
    meter.entry(10);
    meter.entry(20);
    assert_eq!(meter.measure(), 15);
}

#[test]
fn entries_are_stamped_as_they_come() {
    let mut meter = Speedometer::new(Duration::from_millis(2000));
    meter.entry(10);
    wait(Duration::from_millis(1200));
    meter.entry(30);
    assert_eq!(meter.measure(), 20);
    wait(Duration::from_millis(1000));
    assert_eq!(meter.measure(), 30);
    wait(Duration::from_millis(1200));
    assert_eq!(meter.measure(), 0);
}

#[test]
fn meters_can_be_printed() {
    let mut meter = Speedometer::new(Duration::from_secs(1));
    meter.entry_at(3, 4);
    let text = format!("{:?}", meter);
    assert!(text.contains("window_size"));
    assert!(text.contains("total_value: 4"));
}
