use irc_announcer::scheduler::FetchLimiter;

#[test]
fn first_tick_always_fetches() {
    let mut limiter = FetchLimiter::new(30);
    assert!(limiter.poll_tick(0));
}

#[test]
fn ticks_closer_than_minimum_fetch_once() {
    let mut limiter = FetchLimiter::new(30);
    assert!(limiter.poll_tick(100));
    // less than the minimum interval later: no fetch
    assert!(!limiter.poll_tick(120));
    assert!(!limiter.poll_tick(129));
}

#[test]
fn ticks_farther_than_minimum_fetch_twice() {
    let mut limiter = FetchLimiter::new(30);
    assert!(limiter.poll_tick(100));
    assert!(limiter.poll_tick(131));
}

#[test]
fn boundary_tick_fetches_exactly_at_interval() {
    let mut limiter = FetchLimiter::new(30);
    assert!(limiter.poll_tick(100));
    assert!(limiter.poll_tick(130));
}

#[test]
fn skipped_tick_does_not_move_the_clock() {
    let mut limiter = FetchLimiter::new(30);
    assert!(limiter.poll_tick(100));
    // the skipped tick at 120 must not push the next fetch past 130
    assert!(!limiter.poll_tick(120));
    assert!(limiter.poll_tick(130));
}
