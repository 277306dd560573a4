use rusqlite::{Connection, OpenFlags};

use pantheon_store::error::StoreError;
use pantheon_store::policy::{verify_reader_policy, verify_writer_policy, PolicyReadback, APPLICATION_ID, BUSY_TIMEOUT_MS};

fn database(name: &str) -> String {
    format!("/tmp/pantheon-store-{name}.db")
}

fn apply_connection_settings(conn: &Connection) {
    conn.pragma_update(None, "synchronous", "FULL").unwrap();
    conn.pragma_update(None, "foreign_keys", "ON").unwrap();
    conn.pragma_update(None, "trusted_schema", "OFF").unwrap();
    conn.busy_timeout(std::time::Duration::from_millis(BUSY_TIMEOUT_MS as u64)).unwrap();
}

fn read_back(conn: &Connection) -> PolicyReadback {
    let number = |name: &str| -> i64 { conn.pragma_query_value(None, name, |row| row.get(0)).unwrap() };
    PolicyReadback {
        journal_mode: conn.pragma_query_value(None, "journal_mode", |row| row.get(0)).unwrap(),
        synchronous: number("synchronous"),
        foreign_keys: number("foreign_keys"),
        trusted_schema: number("trusted_schema"),
        busy_timeout: number("busy_timeout"),
        application_id: number("application_id"),
    }
}

fn apply_and_verify_writer(conn: &Connection) -> Result<(), StoreError> {
    conn.pragma_update(None, "journal_mode", "WAL").unwrap();
    apply_connection_settings(conn);
    conn.pragma_update(None, "application_id", APPLICATION_ID).unwrap();
    verify_writer_policy(&read_back(conn))
}

fn apply_and_verify_reader(conn: &Connection) -> Result<(), StoreError> {
    apply_connection_settings(conn);
    let read_only = conn.is_readonly(rusqlite::MAIN_DB).unwrap();
    verify_reader_policy(&read_back(conn), read_only)
}

#[test]
fn applies_and_verifies_the_v1_policy() {
    let conn = Connection::open(database("policy-apply")).expect("open connection");
    apply_and_verify_writer(&conn).expect("policy applies and verifies");
    let settings = read_back(&conn);
    assert!(settings.journal_mode.eq_ignore_ascii_case("wal"));
    assert_eq!(settings.synchronous, 2);
    assert_eq!(settings.foreign_keys, 1);
    assert_eq!(settings.trusted_schema, 0);
    assert_eq!(settings.busy_timeout, BUSY_TIMEOUT_MS);
    assert_eq!(settings.application_id, APPLICATION_ID);
}

#[test]
fn a_read_only_connection_verifies_the_policy_the_writer_established() {
    let path = database("policy-reader");
    let writer = Connection::open(&path).expect("open writer");
    apply_and_verify_writer(&writer).expect("writer policy applies");
    let reader = Connection::open_with_flags(
        &path,
        OpenFlags::SQLITE_OPEN_READ_ONLY | OpenFlags::SQLITE_OPEN_NO_MUTEX | OpenFlags::SQLITE_OPEN_PRIVATE_CACHE,
    )
    .expect("open reader");
    apply_and_verify_reader(&reader).expect("reader policy verifies");
    assert!(reader.is_readonly(rusqlite::MAIN_DB).unwrap());
}

#[test]
fn the_reader_policy_rejects_a_read_write_connection() {
    let path = database("policy-reader-rejects");
    let writer = Connection::open(&path).expect("open writer");
    apply_and_verify_writer(&writer).expect("writer policy applies");
    let not_a_reader = Connection::open(&path).expect("open second read-write connection");
    let err = apply_and_verify_reader(&not_a_reader).expect_err("a read-write connection must not pass the reader policy");
    assert!(
        matches!(err, StoreError::PolicyVerificationFailed(ref detail) if detail.contains("read-only")),
        "unexpected error: {err:?}"
    );
}
