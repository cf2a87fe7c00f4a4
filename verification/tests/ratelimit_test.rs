use beatcollector::ratelimit::RateLimiter;

#[test]
fn five_calls_against_two_per_second_span_at_least_two_seconds() {
    // two requests per second: a 500 ms steady interval
    let mut limiter = RateLimiter::per_second(2);
    assert_eq!(limiter.interval_ms, 500);

    // a task that fires each request the moment the previous one went out
    let mut clock: u64 = 0;
    let mut send_times: Vec<u64> = Vec::new();
    for _ in 0..5 {
        let wait = limiter.acquire(clock);
        clock += wait;
        send_times.push(clock);
    }
    let span = send_times[4] - send_times[0];
    assert!(span >= 2000);
    assert_eq!(send_times, vec![0, 500, 1000, 1500, 2000]);
}

#[test]
fn a_slow_caller_waits_nothing() {
    let mut limiter = RateLimiter::per_second(1);
    assert_eq!(limiter.acquire(0), 0);
    // the next call comes two seconds later, well past the interval
    assert_eq!(limiter.acquire(2000), 0);
    // a burst right after must wait out the remainder
    assert_eq!(limiter.acquire(2100), 900);
}

#[test]
fn fresh_limiter_admits_the_first_call_immediately() {
    let mut limiter = RateLimiter::new(1000);
    assert_eq!(limiter.acquire(123_456), 0);
    assert_eq!(limiter.earliest_next_ms, 124_456);
}
