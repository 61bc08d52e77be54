use msh_daemon::retry::{ExponentialBackoff, RetryRun, RetryStep, SEND_MAX_RETRIES};

fn drain(mut p: ExponentialBackoff) -> Vec<u64> {
    let mut out = Vec::new();
    while let Some(w) = p.next() {
        out.push(w);
    }
    out
}

#[test]
fn backoff_yields_max_retries_plus_one_geometric_waits() {
    assert_eq!(drain(ExponentialBackoff::new(100, 2, 3)), vec![100, 200, 400, 800]);
    assert_eq!(drain(ExponentialBackoff::new(25, 3, 0)), vec![25]);
    assert_eq!(drain(ExponentialBackoff::new(7, 1, 4)), vec![7, 7, 7, 7, 7]);
}

#[test]
fn backoff_is_exhausted_and_stays_so() {
    let mut p = ExponentialBackoff::new(1, 2, 1);
    assert_eq!(p.len(), 1);
    assert_eq!(p.next(), Some(1));
    assert_eq!(p.next(), Some(2));
    assert_eq!(p.next(), None);
    assert_eq!(p.next(), None);
}

#[test]
fn backoff_saturates_instead_of_overflowing() {
    let waits = drain(ExponentialBackoff::new(u64::MAX / 2 + 1, 2, 2));
    assert_eq!(waits, vec![u64::MAX / 2 + 1, u64::MAX, u64::MAX]);
}

/// Runs the decisions of a retry loop over `outcomes`; gives (attempts, success).
fn run(max_retries: usize, outcomes: &[bool]) -> (usize, bool, Vec<u64>) {
    let mut r = RetryRun::new(ExponentialBackoff::new(100, 2, max_retries));
    let mut waits = Vec::new();
    let mut attempts = 0;
    for &ok in outcomes {
        attempts += 1;
        if ok {
            return (attempts, true, waits);
        }
        match r.on_failure() {
            RetryStep::GiveUp => return (attempts, false, waits),
            RetryStep::RetryAfter(w) => waits.push(w),
        }
    }
    (attempts, false, waits)
}

#[test]
fn retry_always_failing_makes_max_retries_plus_one_attempts() {
    assert_eq!(run(3, &[false; 10]), (4, false, vec![100, 200, 400]));
    assert_eq!(run(0, &[false; 10]), (1, false, vec![]));
}

#[test]
fn retry_stops_at_first_success() {
    assert_eq!(run(3, &[false, false, true, false]), (3, true, vec![100, 200]));
    assert_eq!(run(3, &[true]), (1, true, vec![]));
    assert_eq!(run(3, &[false, false, false, true]), (4, true, vec![100, 200, 400]));
}

#[test]
fn submission_has_four_attempts() {
    assert_eq!(run(SEND_MAX_RETRIES, &[false; 10]).0, 4);
}
