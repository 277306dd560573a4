use pantheon_store::error::StoreError;
use pantheon_store::migrations::{checksum, migrations, plan_migrations, AppliedMigration, Migration};

/// The first six production migrations: the set a database migrated by an
/// early build knows.
fn early_set() -> Vec<Migration> {
    migrations().into_iter().take(6).collect()
}

/// Bookkeeping exactly as applying `set` in full records it.
fn bookkeeping(set: &[Migration]) -> Vec<AppliedMigration> {
    set.iter().map(|m| AppliedMigration { version: m.version, checksum: checksum(m.sql) }).collect()
}

#[test]
fn applies_migrations_in_order_and_records_bookkeeping() {
    let set = early_set();
    let plan = plan_migrations(&set, &[], 0).expect("migrations apply");
    let applied: Vec<(i64, String)> = plan.iter().map(|m| (m.version, m.name.to_string())).collect();
    assert_eq!(
        applied,
        vec![
            (1, "create_system_state".to_string()),
            (2, "bootstrap_installation_identity".to_string()),
            (3, "create_command_and_journal_state".to_string()),
            (4, "bootstrap_journal_epoch".to_string()),
            (5, "create_configuration_authority".to_string()),
            (6, "bootstrap_active_configuration_pointer".to_string()),
        ]
    );
    // Once applied, the bookkeeping the plan records is what the next open
    // reads back, and it is consistent at version 6.
    assert!(plan_migrations(&set, &bookkeeping(&plan), 6).is_ok());
}

#[test]
fn reopening_an_already_migrated_database_is_a_no_op() {
    let set = early_set();
    let second = plan_migrations(&set, &bookkeeping(&set), 6).expect("second run is a no-op");
    assert!(second.is_empty());
    let all = migrations();
    assert!(plan_migrations(&all, &bookkeeping(&all), 16).expect("fully migrated").is_empty());
}

#[test]
fn unsupported_newer_schema_version_fails_closed() {
    let set = early_set();
    let err = plan_migrations(&set, &bookkeeping(&set), 999).expect_err("must reject unknown newer schema");
    assert!(matches!(err, StoreError::UnsupportedSchemaVersion { found: 999, max_known: 6 }));
}

#[test]
fn tampered_checksum_fails_closed() {
    let set = early_set();
    let mut recorded = bookkeeping(&set);
    recorded[0].checksum = "tampered".to_string();
    let err = plan_migrations(&set, &recorded, 6).expect_err("must reject checksum mismatch");
    assert!(matches!(err, StoreError::InconsistentMigrationState(_)));
}

#[test]
fn gap_in_bookkeeping_fails_closed() {
    let set = early_set();
    let recorded: Vec<AppliedMigration> = bookkeeping(&set).into_iter().skip(1).collect();
    let err = plan_migrations(&set, &recorded, 6).expect_err("must reject a bookkeeping gap");
    assert!(matches!(err, StoreError::InconsistentMigrationState(_)));
}
