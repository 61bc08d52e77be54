use msh_daemon::data::{Data, DataError};
use msh_daemon::status::{cycle_sleep_ms, Status, StatusSnapshot, INITIAL_LAST_SEND_MS};
use msh_daemon::text::Decimal;

fn good_reading() -> Data {
    Data::new(412, Decimal { negative: false, mantissa: 235, scale: 1 })
}

fn delivered_once() -> StatusSnapshot {
    let mut s = StatusSnapshot::new();
    let d = s.collection_finished(Ok(good_reading())).unwrap();
    assert_eq!(s.submission_finished(d, true, 1_000), Ok(()));
    s
}

#[test]
fn fresh_snapshot_is_good() {
    let s = StatusSnapshot::new();
    assert_eq!(s.last_send_ms, INITIAL_LAST_SEND_MS);
    assert_eq!(s.last_data, Data::default());
    assert_eq!(s.status(), Status::Good);
}

#[test]
fn failed_collection_only_sets_the_error() {
    let mut s = delivered_once();
    assert_eq!(s.collection_finished(Err(DataError::ScriptInvalidOutput)), None);
    assert_eq!(s.last_error, Some(DataError::ScriptInvalidOutput));
    assert_eq!(s.last_send_ms, 1_000);
    assert_eq!(s.last_data, good_reading());
    assert_eq!(s.status(), Status::Bad(DataError::ScriptInvalidOutput));
}

#[test]
fn unreachable_endpoint_records_send_failure() {
    let mut s = delivered_once();
    let newer = Data::new(500, Decimal { negative: false, mantissa: 20, scale: 0 });
    let d = s.collection_finished(Ok(newer)).unwrap();
    assert_eq!(s.submission_finished(d, false, 2_000), Err(DataError::SendDataFailed));
    assert_eq!(s.last_error, Some(DataError::SendDataFailed));
    assert_eq!(s.last_send_ms, 1_000);
    assert_eq!(s.last_data, good_reading());
    // The next cycle goes on as usual.
    let d = s.collection_finished(Ok(newer)).unwrap();
    assert_eq!(s.submission_finished(d, true, 3_000), Ok(()));
    assert_eq!(s.last_error, None);
    assert_eq!(s.last_data, newer);
}

#[test]
fn zero_interval_means_no_delay_between_cycles() {
    let zero = Decimal { negative: false, mantissa: 0, scale: 1 };
    assert_eq!(cycle_sleep_ms(&zero), 0);
    assert_eq!(cycle_sleep_ms(&zero), 0);
}

#[test]
fn negative_interval_is_clamped_to_zero() {
    assert_eq!(cycle_sleep_ms(&Decimal { negative: true, mantissa: 15, scale: 1 }), 0);
    assert_eq!(cycle_sleep_ms(&Decimal { negative: false, mantissa: 15, scale: 1 }), 1500);
}
