use pantheon_store::error::StoreError;
use pantheon_store::migrations::{check_supported, checksum, migrations, plan_migrations, AppliedMigration};
use pantheon_store::order::text_less;

#[test]
fn text_orders_by_code_point_with_prefixes_first() {
    assert!(text_less("a", "b"));
    assert!(!text_less("b", "a"));
    assert!(text_less("goal", "goal-1"));
    assert!(!text_less("goal-1", "goal"));
    assert!(!text_less("same", "same"));
    assert!(text_less("", "x"));
    assert!(!text_less("", ""));
    assert!(text_less("Z", "a"), "upper case sorts before lower case by code point");
    assert!(text_less("task-10", "task-9"));
    assert!(text_less("é", "😀"));
}

#[test]
fn a_newer_schema_is_refused_before_anything_is_planned() {
    let set = migrations();
    assert_eq!(
        check_supported(&set, 17),
        Err(StoreError::UnsupportedSchemaVersion { found: 17, max_known: 16 })
    );
    assert_eq!(check_supported(&set, 16), Ok(()));
    assert_eq!(check_supported(&[], 0), Ok(()));
    assert!(matches!(
        plan_migrations(&set, &[], 17),
        Err(StoreError::UnsupportedSchemaVersion { found: 17, max_known: 16 })
    ));
}

#[test]
fn a_fresh_database_plans_every_migration_in_order() {
    let set = migrations();
    let plan = plan_migrations(&set, &[], 0).expect("plan");
    let versions: Vec<i64> = plan.iter().map(|m| m.version).collect();
    assert_eq!(versions, (1..=16).collect::<Vec<i64>>());
}

#[test]
fn a_partly_migrated_database_plans_the_rest() {
    let set = migrations();
    let recorded: Vec<AppliedMigration> = set[..3]
        .iter()
        .map(|m| AppliedMigration { version: m.version, checksum: checksum(m.sql) })
        .collect();
    let plan = plan_migrations(&set, &recorded, 3).expect("plan");
    assert_eq!(plan.first().map(|m| m.version), Some(4));
    assert_eq!(plan.len(), 13);
}

#[test]
fn a_drifted_checksum_is_inconsistent_bookkeeping() {
    let set = migrations();
    let recorded = vec![AppliedMigration { version: 1, checksum: "0000000000000000".to_string() }];
    assert!(matches!(plan_migrations(&set, &recorded, 1), Err(StoreError::InconsistentMigrationState(_))));
}

#[test]
fn the_checksum_is_fnv1a_in_sixteen_hex_digits() {
    assert_eq!(checksum(""), "cbf29ce484222325");
    assert_eq!(checksum("a"), "af63dc4c8601ec8c");
}
