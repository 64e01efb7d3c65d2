use chain_relay::delivery::{
    attempt_succeeded, attempts_until_success, resolve_endpoint, url_join, AttemptOutcome,
    DELIVERY_BACKOFF_MS,
};
use chain_relay::errors::IoErrorKind;

#[test]
fn url_join_normalizes_the_leading_slash() {
    assert_eq!(url_join("127.0.0.1:3700", "/new_block"), "http://127.0.0.1:3700/new_block");
    assert_eq!(url_join("127.0.0.1:3700", "new_block"), "http://127.0.0.1:3700/new_block");
    assert_eq!(url_join("observer.example", ""), "http://observer.example/");
}

#[test]
fn resolve_endpoint_reads_host_port_and_path() {
    let t = resolve_endpoint("127.0.0.1:3700", "/test").expect("target");
    assert_eq!(t.host, "127.0.0.1");
    assert_eq!(t.port, 3700);
    assert_eq!(t.path, "/test");
}

#[test]
fn resolve_endpoint_defaults_to_port_80() {
    let t = resolve_endpoint("observer.example", "attachments/new").expect("target");
    assert_eq!(t.host, "observer.example");
    assert_eq!(t.port, 80);
    assert_eq!(t.path, "/attachments/new");
}

#[test]
fn resolve_endpoint_rejects_unparseable_endpoints() {
    assert!(resolve_endpoint("bad host", "/x").is_none());
}

#[test]
fn only_a_200_acknowledges() {
    assert!(attempt_succeeded(&AttemptOutcome::Status(200)));
    assert!(!attempt_succeeded(&AttemptOutcome::Status(500)));
    assert!(!attempt_succeeded(&AttemptOutcome::Status(201)));
    assert!(!attempt_succeeded(&AttemptOutcome::TransportFailure(IoErrorKind::TimedOut)));
}

/// An endpoint answering 500 then 200 sees exactly two requests; the
/// delivery returns only after the second.
#[test]
fn retry_sends_exactly_two_requests_on_500_then_200() {
    let outcomes = vec![AttemptOutcome::Status(500), AttemptOutcome::Status(200)];
    assert_eq!(attempts_until_success(&outcomes), Some(2));
}

#[test]
fn retry_never_returns_while_only_failures_come_back() {
    let outcomes = vec![
        AttemptOutcome::Status(500),
        AttemptOutcome::TransportFailure(IoErrorKind::WouldBlock),
        AttemptOutcome::Status(503),
    ];
    assert_eq!(attempts_until_success(&outcomes), None);
    assert_eq!(attempts_until_success(&Vec::new()), None);
}

#[test]
fn transport_failure_then_success_takes_two_attempts() {
    let outcomes = vec![
        AttemptOutcome::TransportFailure(IoErrorKind::ConnectionRefused),
        AttemptOutcome::Status(200),
    ];
    assert_eq!(attempts_until_success(&outcomes), Some(2));
}

#[test]
fn backoff_is_one_second() {
    assert_eq!(DELIVERY_BACKOFF_MS, 1000);
}
