use wait_online::poll::{deadline_ms, poll_step, PollDecision};

#[test]
fn deadline_in_milliseconds() {
    assert_eq!(deadline_ms(0), 0);
    assert_eq!(deadline_ms(1), 1000);
    assert_eq!(deadline_ms(120), 120_000);
    assert_eq!(deadline_ms(u64::MAX), u64::MAX);
}

#[test]
fn ready_stops_immediately() {
    assert_eq!(poll_step(true, 500, 1000, 0), PollDecision::Ready);
    assert_eq!(poll_step(true, 0, 0, u64::MAX), PollDecision::Ready);
    assert_eq!(poll_step(true, 500, 1000, 5000), PollDecision::Ready);
}

#[test]
fn timeout_elapses_after_one_second_not_earlier() {
    // timeout = 1 s, interval = 500 ms, never ready: two full sleeps, then
    // the deadline stops the loop — not earlier, not indefinitely.
    let timeout = deadline_ms(1);
    assert_eq!(poll_step(false, 500, timeout, 0), PollDecision::Sleep(500));
    assert_eq!(poll_step(false, 500, timeout, 500), PollDecision::Sleep(500));
    assert_eq!(poll_step(false, 500, timeout, 1000), PollDecision::TimedOut);
    assert_eq!(poll_step(false, 500, timeout, 2000), PollDecision::TimedOut);
}

#[test]
fn sleep_never_passes_the_deadline() {
    assert_eq!(poll_step(false, 500, 1000, 999), PollDecision::Sleep(1));
    assert_eq!(poll_step(false, 500, 1000, 600), PollDecision::Sleep(400));
}

#[test]
fn zero_timeout_disables_the_deadline() {
    assert_eq!(poll_step(false, 500, 0, u64::MAX), PollDecision::Sleep(500));
    assert_eq!(poll_step(false, 10, 0, 123_456), PollDecision::Sleep(10));
}

#[test]
fn zero_interval_busy_polls_until_the_deadline() {
    assert_eq!(poll_step(false, 0, 1000, 0), PollDecision::Sleep(0));
    assert_eq!(poll_step(false, 0, 1000, 999), PollDecision::Sleep(0));
    assert_eq!(poll_step(false, 0, 1000, 1000), PollDecision::TimedOut);
}
