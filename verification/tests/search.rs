use wren::search::{is_transient_connect_error, retry_step, RetryStep};

#[test]
fn transient_classifier_matches_connect_errors() {
    assert!(is_transient_connect_error("Connection refused"));
    assert!(is_transient_connect_error("operation timed out"));
    assert!(is_transient_connect_error("dns error"));
    assert!(is_transient_connect_error("connection reset by peer"));
    assert!(is_transient_connect_error("broken pipe"));
}

#[test]
fn transient_classifier_matches_windows_wording() {
    assert!(is_transient_connect_error(
        "No connection could be made because the target machine actively refused it. (os error 10061)"
    ));
    assert!(is_transient_connect_error(
        "An existing connection was forcibly closed by the remote host. (os error 10054)"
    ));
    assert!(is_transient_connect_error(
        "A socket operation was attempted to an unreachable host. (os error 10065)"
    ));
    assert!(is_transient_connect_error(
        "A socket operation was attempted to an unreachable network. (os error 10051)"
    ));
    assert!(is_transient_connect_error(
        "A connection attempt failed... did not properly respond after a period of time (os error 10060)"
    ));
}

#[test]
fn transient_classifier_rejects_semantic_errors() {
    assert!(!is_transient_connect_error("404 Not Found"));
    assert!(!is_transient_connect_error("parse error"));
    assert!(!is_transient_connect_error("invalid json"));
}

/// Runs an operation under the single-retry rule and counts its calls.
fn run_with_retry(outcomes: &[Result<u32, &'static str>]) -> (Result<u32, &'static str>, u32) {
    let mut attempts = 0u32;
    loop {
        let r = outcomes[attempts as usize];
        attempts += 1;
        if retry_step(attempts, r.is_ok()) == RetryStep::Finish {
            return (r, attempts);
        }
    }
}

#[test]
fn retry_rule_succeeds_on_second_attempt() {
    assert_eq!(run_with_retry(&[Err("boom"), Ok(7)]), (Ok(7), 2));
}

#[test]
fn retry_rule_returns_second_error_on_double_failure() {
    assert_eq!(run_with_retry(&[Err("first"), Err("nope"), Ok(1)]), (Err("nope"), 2));
}

#[test]
fn retry_rule_skips_retry_on_first_success() {
    assert_eq!(run_with_retry(&[Ok(42), Ok(0)]), (Ok(42), 1));
}
