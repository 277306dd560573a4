use pantheon_store::error::StoreError;
use pantheon_store::policy::{verify_reader_policy, verify_writer_policy, PolicyReadback, APPLICATION_ID, BUSY_TIMEOUT_MS};

fn good() -> PolicyReadback {
    PolicyReadback {
        journal_mode: "wal".to_string(),
        synchronous: 2,
        foreign_keys: 1,
        trusted_schema: 0,
        busy_timeout: BUSY_TIMEOUT_MS,
        application_id: APPLICATION_ID,
    }
}

fn failure(detail: &str) -> Result<(), StoreError> {
    Err(StoreError::PolicyVerificationFailed(detail.to_string()))
}

#[test]
fn the_policy_as_applied_verifies_for_writer_and_read_only_reader() {
    assert_eq!(verify_writer_policy(&good()), Ok(()));
    assert_eq!(verify_reader_policy(&good(), true), Ok(()));
    let mut upper = good();
    upper.journal_mode = "WAL".to_string();
    assert_eq!(verify_writer_policy(&upper), Ok(()));
    assert_eq!(APPLICATION_ID, 1346457172);
}

#[test]
fn each_setting_that_reads_back_wrong_is_named_with_its_value() {
    let mut r = good();
    r.journal_mode = "delete".to_string();
    assert_eq!(verify_writer_policy(&r), failure("journal_mode is delete, not wal"));
    let mut r = good();
    r.synchronous = 1;
    assert_eq!(verify_writer_policy(&r), failure("synchronous is 1, not FULL (2)"));
    let mut r = good();
    r.foreign_keys = 0;
    assert_eq!(verify_writer_policy(&r), failure("foreign_keys is 0, not ON"));
    let mut r = good();
    r.trusted_schema = 1;
    assert_eq!(verify_writer_policy(&r), failure("trusted_schema is 1, not OFF"));
    let mut r = good();
    r.busy_timeout = 0;
    assert_eq!(verify_writer_policy(&r), failure("busy_timeout is 0ms, not 5000ms"));
    let mut r = good();
    r.application_id = -7;
    assert_eq!(verify_writer_policy(&r), failure("application_id is -7, not 1346457172"));
}

#[test]
fn the_first_failing_setting_in_application_order_is_reported() {
    let mut r = good();
    r.journal_mode = "memory".to_string();
    r.synchronous = 0;
    assert_eq!(verify_writer_policy(&r), failure("journal_mode is memory, not wal"));
    assert_eq!(verify_reader_policy(&r, false), failure("journal_mode is memory, not wal"));
}

#[test]
fn a_writable_reader_is_refused() {
    assert_eq!(
        verify_reader_policy(&good(), false),
        failure("the read connection is not read-only at the SQLite level")
    );
}
