use hamster_auth::bridge::{normalize_blocking, BlockingOutcome, BridgeError, Conn, Database};
use hamster_auth::error::ErrorKind;

/// A pool whose database does not exist: every connection attempt fails, so
/// acquisition can only time out.
fn unreachable_db() -> Database {
    Database::builder()
        .pool_max_size(1)
        .pool_min_idle(Some(0))
        .pool_connection_timeout(Some(300))
        .open("postgres://127.0.0.1:1/nowhere")
}

#[test]
fn test_run_reports_acquire_timeout_instead_of_blocking() {
    let db = unreachable_db();
    let r: Result<(), BridgeError<()>> = db.run(|_c: &Conn| Ok(()));
    assert_eq!(r.unwrap_err(), BridgeError::AcquireTimeout);
}

#[test]
fn test_transaction_reports_acquire_timeout_instead_of_blocking() {
    let db = unreachable_db();
    let r: Result<(), BridgeError<diesel::result::Error>> = db.transaction(|_c: &Conn| Ok(()));
    assert!(matches!(r.unwrap_err(), BridgeError::AcquireTimeout));
}

#[test]
fn test_open_accepts_min_idle_at_max_size() {
    // The largest idle minimum the pool accepts is the maximum size itself.
    let db = Database::builder()
        .pool_max_size(2)
        .pool_min_idle(Some(2))
        .pool_connection_timeout(Some(300))
        .open("postgres://127.0.0.1:1/nowhere");
    let r: Result<(), BridgeError<()>> = db.run(|_c: &Conn| Ok(()));
    assert_eq!(r.unwrap_err(), BridgeError::AcquireTimeout);
}

#[test]
fn test_conn_reports_pool_error_kind() {
    let db = unreachable_db();
    let e = db.conn().map(|_| ()).unwrap_err();
    assert_eq!(e.kind(), ErrorKind::DbPoolError);
    assert_eq!(e.status_code(), 500);
}

#[test]
fn test_clone_shares_the_pool_handle() {
    let db = unreachable_db();
    let db2 = db.clone();
    let r: Result<(), BridgeError<()>> = db2.run(|_c: &Conn| Ok(()));
    assert_eq!(r.unwrap_err(), BridgeError::AcquireTimeout);
}

#[test]
fn test_normalize_blocking_passes_completed_through() {
    let r: Result<u32, BridgeError<&str>> = normalize_blocking(BlockingOutcome::Completed(Ok(5)));
    assert_eq!(r.unwrap(), 5);
    let r: Result<u32, BridgeError<&str>> =
        normalize_blocking(BlockingOutcome::Completed(Err(BridgeError::ExecutionFailed("boom"))));
    assert_eq!(r.unwrap_err(), BridgeError::ExecutionFailed("boom"));
    let r: Result<u32, BridgeError<&str>> =
        normalize_blocking(BlockingOutcome::Completed(Err(BridgeError::AcquireTimeout)));
    assert_eq!(r.unwrap_err(), BridgeError::AcquireTimeout);
}

#[test]
fn test_normalize_blocking_reports_cancellation() {
    let r: Result<u32, BridgeError<&str>> = normalize_blocking(BlockingOutcome::Cancelled);
    assert_eq!(r.unwrap_err(), BridgeError::WorkerCancelled);
}
