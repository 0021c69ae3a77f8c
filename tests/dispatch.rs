use rustopus::breaker::{Breaker, BreakerState};
use rustopus::client::{classify_status, Action, HttpClient, Outcome};
use rustopus::config::{BackendConfig, BackendProtocol, CircuitBreakerConfig, RetryConfig};
use rustopus::error::{DispatchError, Failure, RegistrationError};

fn backend(url: &str) -> BackendConfig {
    BackendConfig {
        url: url.to_string(),
        method: None,
        timeout: None,
        circuit_breaker: None,
        retry: None,
        protocol: BackendProtocol::Rest,
    }
}

fn breaker_policy() -> CircuitBreakerConfig {
    CircuitBreakerConfig { threshold: 3, window: 10_000, min_requests: 3 }
}

/// Runs one request to completion; `fails(target)` decides each call.
fn run(client: &mut HttpClient, now: u64, fails: &dyn Fn(usize) -> bool) -> (Vec<Action>, Result<usize, DispatchError>) {
    let mut s = client.begin();
    let mut log = Vec::new();
    loop {
        let a = client.next_action(&mut s, now);
        log.push(a.clone());
        match a {
            Action::Call(plan) => {
                let outcome = if fails(plan.target) {
                    Outcome::Failed(Failure::NetworkError)
                } else {
                    Outcome::Success
                };
                if client.on_outcome(&mut s, outcome, now) {
                    return (log, Ok(plan.target));
                }
            }
            Action::Wait(_) => {}
            Action::GiveUp(e) => return (log, Err(e)),
        }
    }
}

#[test]
fn round_robin_selects_each_target_equally() {
    let mut client = HttpClient::new(vec![backend("http://a"), backend("http://b"), backend("http://c")]).unwrap();
    let mut counts = [0usize; 3];
    for _ in 0..3 * 4 {
        let (_, r) = run(&mut client, 0, &|_| false);
        counts[r.unwrap()] += 1;
    }
    assert_eq!(counts, [4, 4, 4]);
}

#[test]
fn retry_makes_full_passes_then_gives_up() {
    let mut a = backend("http://a");
    a.retry = Some(RetryConfig { attempts: 3, backoff: 100 });
    let mut client = HttpClient::new(vec![a, backend("http://b")]).unwrap();
    let (log, r) = run(&mut client, 0, &|_| true);
    assert_eq!(r, Err(DispatchError::AllBackendsExhausted(Failure::NetworkError)));
    let shape: Vec<String> = log
        .iter()
        .map(|a| match a {
            Action::Call(p) => format!("call {}", p.target),
            Action::Wait(ms) => format!("wait {}", ms),
            Action::GiveUp(_) => "give up".to_string(),
        })
        .collect();
    assert_eq!(
        shape,
        vec!["call 0", "call 1", "wait 100", "call 0", "call 1", "wait 100", "call 0", "call 1", "give up"]
    );
}

#[test]
fn without_retry_one_pass() {
    let mut client = HttpClient::new(vec![backend("http://a"), backend("http://b")]).unwrap();
    let (log, r) = run(&mut client, 0, &|_| true);
    assert_eq!(log.len(), 3);
    assert!(r.is_err());
}

#[test]
fn failover_to_second_backend() {
    let mut a = backend("http://a");
    a.circuit_breaker = Some(breaker_policy());
    let mut b = backend("http://b");
    b.circuit_breaker = Some(breaker_policy());
    let mut client = HttpClient::new(vec![a, b]).unwrap();
    let (log, r) = run(&mut client, 5, &|t| t == 0);
    assert_eq!(r, Ok(1));
    match &log[1] {
        Action::Call(p) => {
            assert_eq!(p.url, "http://b");
            assert_eq!(p.method, "GET");
            assert!(!p.send_body);
            assert_eq!(p.timeout, 30_000);
        }
        _ => panic!("expected a call"),
    }
    assert_eq!(client.breakers[0].failure_count(), 1);
    assert_eq!(client.breakers[1].failure_count(), 0);
    assert_eq!(client.breakers[0].state, BreakerState::Closed);
}

#[test]
fn method_override_sends_body() {
    let mut a = backend("http://a");
    a.method = Some("POST".to_string());
    a.timeout = Some(2_000);
    let mut client = HttpClient::new(vec![a]).unwrap();
    let mut s = client.begin();
    match client.next_action(&mut s, 0) {
        Action::Call(p) => {
            assert_eq!(p.method, "POST");
            assert!(p.send_body);
            assert_eq!(p.timeout, 2_000);
        }
        _ => panic!("expected a call"),
    }
}

#[test]
fn breaker_trips_skips_and_recovers() {
    let mut b = Breaker::new(Some(breaker_policy()));
    for t in [0u64, 10, 20] {
        assert!(b.allow(t));
        b.record(true, t);
    }
    assert_eq!(b.state, BreakerState::Open);
    assert!(!b.allow(5_000));
    assert_eq!(b.state, BreakerState::Open);
    assert!(b.allow(10_020));
    assert_eq!(b.state, BreakerState::HalfOpen);
    b.record(false, 10_030);
    assert_eq!(b.state, BreakerState::Closed);
    assert_eq!(b.failure_count(), 0);

    let mut c = Breaker::new(Some(breaker_policy()));
    for t in [0u64, 10, 20] {
        c.record(true, t);
    }
    assert!(c.allow(10_020));
    c.record(true, 10_030);
    assert_eq!(c.state, BreakerState::Open);
}

#[test]
fn old_failures_age_out() {
    let mut b = Breaker::new(Some(breaker_policy()));
    b.record(true, 0);
    b.record(true, 1_000);
    b.record(true, 20_000);
    assert_eq!(b.state, BreakerState::Closed);
    assert_eq!(b.failure_count(), 1);
}

#[test]
fn open_breaker_is_skipped_without_a_call() {
    let mut a = backend("http://a");
    a.circuit_breaker = Some(breaker_policy());
    let mut client = HttpClient::new(vec![a, backend("http://b")]).unwrap();
    for t in [0u64, 1, 2] {
        client.breakers[0].record(true, t);
    }
    client.cursor = 0;
    let (log, r) = run(&mut client, 3, &|_| false);
    assert_eq!(r, Ok(1));
    assert_eq!(log.len(), 1);
}

#[test]
fn all_open_gives_up_with_circuit_open() {
    let mut a = backend("http://a");
    a.circuit_breaker = Some(breaker_policy());
    let mut client = HttpClient::new(vec![a]).unwrap();
    for t in [0u64, 1, 2] {
        client.breakers[0].record(true, t);
    }
    let (_, r) = run(&mut client, 3, &|_| false);
    assert_eq!(r, Err(DispatchError::AllBackendsExhausted(Failure::CircuitOpen)));
}

#[test]
fn no_backends_is_an_error() {
    assert_eq!(HttpClient::new(vec![]).unwrap_err(), RegistrationError::NoBackends);
}

#[test]
fn status_codes_classify() {
    assert_eq!(classify_status(200), Outcome::Success);
    assert_eq!(classify_status(299), Outcome::Success);
    assert_eq!(classify_status(302), Outcome::Failed(Failure::NonSuccessStatus(302)));
    assert_eq!(classify_status(503), Outcome::Failed(Failure::NonSuccessStatus(503)));
}
