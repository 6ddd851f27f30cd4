use frame_engine::timer::{Timer, NANOS_PER_SECOND};

#[test]
fn new_timer_has_counted_nothing() {
    let timer = Timer::new();
    assert_eq!(timer.current_cycle_count(), 0);
    assert_eq!(timer.cycle_delta_time(), 0);
    assert_eq!(timer.current_delta_time(), 0);
}

#[test]
fn default_timer_has_counted_nothing() {
    let timer = Timer::default();
    assert_eq!(timer.current_cycle_count(), 0);
    assert_eq!(timer.current_delta_time(), 0);
}

#[test]
fn short_cycles_add_up_without_report() {
    let mut timer = Timer::new();
    assert_eq!(timer.advance(300_000_000), None);
    assert_eq!(timer.advance(400_000_000), None);
    assert_eq!(timer.current_cycle_count(), 2);
    assert_eq!(timer.cycle_delta_time(), 400_000_000);
    assert_eq!(timer.current_delta_time(), 700_000_000);
}

#[test]
fn crossing_a_second_reports_sum_and_cycles() {
    let mut timer = Timer::new();
    assert_eq!(timer.advance(600_000_000), None);
    assert_eq!(timer.advance(500_000_000), Some((1_100_000_000, 2)));
    assert_eq!(timer.current_delta_time(), 100_000_000);
    assert_eq!(timer.current_cycle_count(), 0);
    assert_eq!(timer.cycle_delta_time(), 500_000_000);
}

#[test]
fn exactly_one_second_reports_and_leaves_nothing() {
    let mut timer = Timer::new();
    assert_eq!(timer.advance(NANOS_PER_SECOND), Some((NANOS_PER_SECOND, 1)));
    assert_eq!(timer.current_delta_time(), 0);
}

#[test]
fn one_nanosecond_short_does_not_report() {
    let mut timer = Timer::new();
    assert_eq!(timer.advance(NANOS_PER_SECOND - 1), None);
    assert_eq!(timer.advance(1), Some((NANOS_PER_SECOND, 2)));
}

#[test]
fn remainder_carries_into_next_second() {
    let mut timer = Timer::new();
    assert_eq!(timer.advance(1_250_000_000), Some((1_250_000_000, 1)));
    assert_eq!(timer.advance(700_000_000), None);
    assert_eq!(timer.advance(50_000_000), Some((1_000_000_000, 2)));
    assert_eq!(timer.current_delta_time(), 0);
}

#[test]
fn long_cycle_takes_off_one_second_only() {
    let mut timer = Timer::new();
    assert_eq!(timer.advance(2_500_000_000), Some((2_500_000_000, 1)));
    assert_eq!(timer.current_delta_time(), 1_500_000_000);
    assert_eq!(timer.advance(0), Some((1_500_000_000, 1)));
    assert_eq!(timer.current_delta_time(), 500_000_000);
    assert_eq!(timer.advance(0), None);
}

#[test]
fn accumulated_time_is_held_at_the_largest_number() {
    let mut timer = Timer::new();
    assert_eq!(timer.advance(u64::MAX), Some((u64::MAX, 1)));
    assert_eq!(timer.current_delta_time(), u64::MAX - NANOS_PER_SECOND);
    assert_eq!(timer.advance(u64::MAX), Some((u64::MAX, 1)));
}

#[test]
fn tick_counts_a_cycle_of_the_clock() {
    let mut timer = Timer::new();
    let report = timer.tick();
    match report {
        None => {
            assert_eq!(timer.current_cycle_count(), 1);
            assert_eq!(timer.current_delta_time(), timer.cycle_delta_time());
            assert!(timer.current_delta_time() < NANOS_PER_SECOND);
        }
        Some((accumulated, cycles)) => {
            assert!(accumulated >= NANOS_PER_SECOND);
            assert_eq!(cycles, 1);
            assert_eq!(timer.current_cycle_count(), 0);
            assert_eq!(timer.current_delta_time(), accumulated - NANOS_PER_SECOND);
        }
    }
}

#[test]
fn ticks_measure_from_the_previous_tick() {
    let mut timer = Timer::new();
    let _ = timer.tick();
    let first = timer.cycle_delta_time();
    let _ = timer.tick();
    let second = timer.cycle_delta_time();
    let total = timer.current_delta_time();
    if timer.current_cycle_count() == 2 {
        assert_eq!(total, first + second);
    }
}

#[test]
fn measure_reads_the_clock_and_counts_nothing() {
    let mut timer = Timer::new();
    assert_eq!(timer.advance(5), None);
    let first = timer.measure();
    let _ = timer.measure();
    assert!(first < 10 * NANOS_PER_SECOND);
    assert_eq!(timer.current_cycle_count(), 1);
    assert_eq!(timer.current_delta_time(), 5);
    assert_eq!(timer.cycle_delta_time(), 5);
}
