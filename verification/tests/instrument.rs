use rnc::instrument::{pace, Direction, RateLimiter, Stats};

#[test]
fn direction_marks() {
    assert_eq!(Direction::Send.arrow(), ">>");
    assert_eq!(Direction::Recv.arrow(), "<<");
    assert_eq!(Direction::Send.label(), "send");
    assert_eq!(Direction::Recv.label(), "recv");
}

#[test]
fn stats_count_each_direction() {
    let mut s = Stats::new();
    s.add(Direction::Send, 2);
    s.add(Direction::Recv, 5);
    s.add(Direction::Send, 3);
    assert_eq!(s.bytes_sent(), 5);
    assert_eq!(s.bytes_recv(), 5);
    s.add(Direction::Recv, u64::MAX);
    assert_eq!(s.bytes_recv(), 4);
}

#[test]
fn pace_owes_the_schedule() {
    // 20,000 bytes at 10,000 B/s should take two seconds.
    assert_eq!(pace(20_000, 10_000, 0), 2_000_000_000);
    assert_eq!(pace(20_000, 10_000, 500_000_000), 1_500_000_000);
    assert_eq!(pace(20_000, 10_000, 3_000_000_000), 0);
    assert_eq!(pace(1, 3, 0), 333_333_333);
    // Rounded to the nearest nanosecond, as Duration::from_secs_f64 does.
    assert_eq!(pace(2, 3, 0), 666_666_667);
    assert_eq!(pace(2, 3, 0) as u128, std::time::Duration::from_secs_f64(2.0 / 3.0).as_nanos());
    assert_eq!(pace(1, 2_000_000_000, 0), 1);
    assert_eq!(pace(1, 3_000_000_000, 0), 0);
}

#[test]
fn unlimited_limiter_never_waits() {
    let mut r = RateLimiter::new(0);
    let p = r.throttle(1_000_000);
    assert_eq!(p.wait_nanos, 0);
    assert_eq!(p.clock_nanos, None);
    assert_eq!(r.bytes_moved(), 0);
}

#[test]
fn limiter_counts_and_waits() {
    let mut r = RateLimiter::new(10_000);
    let start = r.started();
    let p = r.throttle(20_000);
    assert_eq!(r.bytes_moved(), 20_000);
    let clock = p.clock_nanos.expect("a capped limiter reads the clock");
    assert_eq!(p.wait_nanos, pace(20_000, 10_000, clock));
    assert!(p.wait_nanos <= 2_000_000_000);
    assert!(p.wait_nanos >= 1_000_000_000);
    assert_eq!(r.started(), start);
}

#[test]
fn stats_start_time_is_kept_while_counting() {
    let before = std::time::Instant::now();
    let mut s = Stats::new();
    let t = s.started();
    s.add(Direction::Send, 10);
    assert_eq!(s.started(), t);
    assert!(t >= before);
    assert!(t <= std::time::Instant::now());
}

#[test]
fn stats_totals_do_not_depend_on_order() {
    let ops = [(Direction::Send, 5u64), (Direction::Recv, 7), (Direction::Send, u64::MAX), (Direction::Recv, 1)];
    let mut a = Stats::new();
    for (d, n) in ops {
        a.add(d, n);
    }
    let mut b = Stats::new();
    for (d, n) in ops.iter().rev() {
        b.add(*d, *n);
    }
    assert_eq!(a.bytes_sent(), b.bytes_sent());
    assert_eq!(a.bytes_recv(), b.bytes_recv());
    assert_eq!(a.bytes_sent(), 4);
    assert_eq!(a.bytes_recv(), 8);
}
