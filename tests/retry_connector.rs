use database_tester::retry::{
    simulate_connect, ConnectReport, RetryConnector, RetryDecision, MAX_ATTEMPTS,
    RETRY_INTERVAL_SECS,
};

#[test]
fn constants() {
    assert_eq!(MAX_ATTEMPTS, 30);
    assert_eq!(RETRY_INTERVAL_SECS, 10);
}

#[test]
fn connector_decides_after_each_attempt() {
    let mut c = RetryConnector::new();
    assert_eq!(c.record_attempt(false), RetryDecision::WaitThenRetry { delay_secs: 10 });
    assert_eq!(c.record_attempt(true), RetryDecision::Connected);
}

#[test]
fn connector_gives_up_on_thirtieth_failure() {
    let mut c = RetryConnector::new();
    for _ in 0..29 {
        assert_eq!(c.record_attempt(false), RetryDecision::WaitThenRetry { delay_secs: 10 });
    }
    assert_eq!(c.record_attempt(false), RetryDecision::Exhausted);
}

#[test]
fn success_on_first_attempt() {
    let r = simulate_connect(&vec![true]);
    assert_eq!(r, ConnectReport { connected: true, attempts: 1, waited_secs: 0 });
}

#[test]
fn failures_then_success_within_bound() {
    let mut outcomes = vec![false; 29];
    outcomes.push(true);
    let r = simulate_connect(&outcomes);
    assert_eq!(r, ConnectReport { connected: true, attempts: 30, waited_secs: 290 });
}

#[test]
fn failures_beyond_bound_exhaust() {
    let mut outcomes = vec![false; 30];
    outcomes.push(true);
    let r = simulate_connect(&outcomes);
    assert_eq!(r, ConnectReport { connected: false, attempts: 30, waited_secs: 290 });
}

#[test]
fn no_outcomes_means_failures() {
    let r = simulate_connect(&vec![]);
    assert_eq!(r, ConnectReport { connected: false, attempts: 30, waited_secs: 290 });
}
