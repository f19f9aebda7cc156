use nebula_ssh::backoff::Backoff;
use nebula_ssh::backoff::BACKOFF_STEP_MS;

#[test]
fn new_backoff_starts_at_the_floor() {
    let b = Backoff::new(10, 50);
    assert_eq!(b.current_ms(), 10);
    assert_eq!(b.min_ms(), 10);
    assert_eq!(b.max_ms(), 50);
    assert_eq!(BACKOFF_STEP_MS, 10);
}

#[test]
fn wait_hands_out_the_interval_and_grows_it_by_one_step() {
    let mut b = Backoff::new(10, 50);
    let mut seen = Vec::new();
    for _ in 0..7 {
        seen.push(b.wait());
    }
    assert_eq!(seen, vec![10, 20, 30, 40, 50, 50, 50]);
    assert_eq!(b.current_ms(), 50);
}

#[test]
fn wait_stops_at_a_ceiling_that_is_no_multiple_of_the_step() {
    let mut b = Backoff::new(10, 35);
    assert_eq!(b.wait(), 10);
    assert_eq!(b.wait(), 20);
    assert_eq!(b.wait(), 30);
    assert_eq!(b.wait(), 35);
    assert_eq!(b.wait(), 35);
}

#[test]
fn reset_brings_the_interval_back_to_the_floor() {
    let mut b = Backoff::new(10, 50);
    b.wait();
    b.wait();
    b.wait();
    assert_eq!(b.current_ms(), 40);
    b.reset();
    assert_eq!(b.current_ms(), 10);
    assert_eq!(b.wait(), 10);
    assert_eq!(b.current_ms(), 20);
}

#[test]
fn idle_interval_is_floor_plus_steps_capped_at_the_ceiling() {
    for (min, max) in [(10u64, 50u64), (0, 0), (5, 5), (7, 1000), (10, 35), (1, 2)] {
        for n in 0u64..120 {
            let mut b = Backoff::new(min, max);
            b.wait();
            b.reset();
            for _ in 0..n {
                b.wait();
            }
            assert_eq!(b.current_ms(), std::cmp::min(min + n * 10, max), "{} {} {}", min, max, n);
            b.reset();
            assert_eq!(b.current_ms(), min);
        }
    }
}

#[test]
fn a_floor_above_the_ceiling_never_moves() {
    let mut b = Backoff::new(50, 10);
    assert_eq!(b.wait(), 50);
    assert_eq!(b.wait(), 50);
    b.reset();
    assert_eq!(b.current_ms(), 50);
}

#[test]
fn wait_does_not_overflow_near_the_largest_interval() {
    let mut b = Backoff::new(u64::MAX - 5, u64::MAX);
    assert_eq!(b.wait(), u64::MAX - 5);
    assert_eq!(b.wait(), u64::MAX);
    assert_eq!(b.wait(), u64::MAX);
    let mut c = Backoff::new(u64::MAX - 25, u64::MAX);
    assert_eq!(c.wait(), u64::MAX - 25);
    assert_eq!(c.wait(), u64::MAX - 15);
    assert_eq!(c.wait(), u64::MAX - 5);
    assert_eq!(c.wait(), u64::MAX);
}
