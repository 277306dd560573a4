use pantheon_store::error::StoreError;

#[test]
fn a_stale_revision_message_names_both_revisions() {
    let e = StoreError::RevisionConflict {
        table: "tasks",
        id: "task-1".to_string(),
        expected: 1,
        actual: Some(2),
    };
    assert_eq!(e.message(), "stale revision for tasks row task-1: expected 1, found 2");
}

#[test]
fn a_missing_row_message_names_the_expected_revision() {
    let e = StoreError::RevisionConflict {
        table: "goals",
        id: "goal-1".to_string(),
        expected: -3,
        actual: None,
    };
    assert_eq!(e.message(), "no goals row goal-1 to mutate at expected revision -3");
}

#[test]
fn messages_splice_every_field() {
    assert_eq!(
        StoreError::UnsupportedSchemaVersion { found: 9, max_known: 6 }.message(),
        "database schema version 9 is newer than the highest migration this build knows (6)"
    );
    assert_eq!(
        StoreError::MigrationFailed {
            version: 4,
            name: "create_tasks".to_string(),
            detail: "boom".to_string()
        }
        .message(),
        "migration 4 (create_tasks) failed and was rolled back: boom"
    );
    assert_eq!(
        StoreError::GoalNotCancellable {
            goal_id: "goal-1".to_string(),
            phase: "Finalizing",
            terminal_target: Some("Succeeded".to_string())
        }
        .message(),
        "goal goal-1 is Finalizing toward Succeeded and cannot be cancelled"
    );
    assert_eq!(
        StoreError::TaskNotDispatchable { task_id: "t".to_string(), phase: "Active", active_run_id: None }.message(),
        "task t is Active and cannot dispatch"
    );
    assert_eq!(
        StoreError::ContentIdentityConflict {
            table: "blobs",
            id: "ab".to_string(),
            detail: "size differs".to_string()
        }
        .message(),
        "blobs row ab does not hold the content its address names: size differs"
    );
    assert_eq!(
        StoreError::DispatchPaused.message(),
        "dispatch is durably paused; new Run intents are fenced until resume"
    );
}
