use pantheon_store::command::{Command, Committed};
use pantheon_store::error::StoreError;
use pantheon_store::execution::{
    AttemptCreated, AttemptCreation, RunContextPlanRecord, RunPhase, RunStatusRow,
};
use pantheon_store::revision::Revision;
use pantheon_store::store::Store;

const RUN: &str = "run-1";

/// A store holding one committed Active Run, with or without its one-time
/// ContextPlan attached.
fn world(attach_plan: bool) -> Store {
    let mut store = Store::new();
    store.run_status.push(RunStatusRow {
        run_id: RUN.to_string(),
        task_id: "task-1".to_string(),
        phase: RunPhase::Active,
        terminal_target: None,
        revision: 1,
        active_slot: true,
        current_attempt_id: None,
    });
    if attach_plan {
        store.run_context_plans.push(RunContextPlanRecord {
            run_id: RUN.to_string(),
            context_source_snapshot_digest: [2u8; 32],
            context_plan_digest: [3u8; 32],
        });
    }
    store
}

fn launch_key(seed: u8) -> String {
    format!("{seed:02x}").repeat(32)
}

fn run_status_revision(store: &Store) -> Revision {
    let row = store
        .run_status
        .iter()
        .find(|r| r.run_id == RUN)
        .expect("the Run exists");
    Revision::new(row.revision)
}

#[allow(clippy::too_many_arguments)]
fn t4(
    store: &mut Store,
    command_id: &str,
    request_hash: [u8; 32],
    attempt_id: &str,
    key_seed: u8,
    session_id: &str,
    verifier: &[u8; 32],
) -> Result<Committed<AttemptCreated>, StoreError> {
    let revision = run_status_revision(store);
    let epoch = store.restore_generation().to_string();
    let key = launch_key(key_seed);
    store.create_attempt(
        &Command {
            epoch: epoch.as_str(),
            id: command_id,
            request_hash: &request_hash,
            event_type: "run.attempt.created",
        },
        &AttemptCreation {
            run_id: RUN,
            attempt_id,
            launch_key: &key,
            session_id,
            credential_verifier: verifier,
            expected_run_status_revision: revision,
        },
    )
}

fn create_first_attempt(store: &mut Store) -> Committed<AttemptCreated> {
    match t4(
        store,
        "t4-run1-ord1",
        [0x31u8; 32],
        "attempt-1",
        0xAA,
        "acs-1",
        &[7u8; 32],
    )
    .expect("T4 commits")
    {
        executed @ Committed::Executed { .. } => executed,
        other => panic!("a fresh T4 executes, got {other:?}"),
    }
}

#[test]
fn command_replay_reconciles_the_same_committed_result() {
    let mut store = world(true);
    create_first_attempt(&mut store);

    let replay = t4(
        &mut store,
        "t4-run1-ord1",
        [0x31u8; 32],
        "attempt-regenerated",
        0xFF,
        "acs-regenerated",
        &[8u8; 32],
    )
    .expect("the retry reconciles");
    assert!(
        matches!(replay, Committed::Replayed { .. }),
        "the same identity and hash reconcile as a replay"
    );

    assert_eq!(store.attempts.len(), 1);
    assert_eq!(store.attempts[0].id, "attempt-1");
    assert_eq!(store.attempts[0].launch_key, launch_key(0xAA));
    assert_eq!(store.sessions.len(), 1);
    assert_eq!(store.sessions[0].credential_revision, 1);
}

#[test]
fn t4_commits_the_whole_lineage_in_one_transaction() {
    let mut store = world(true);
    let committed = create_first_attempt(&mut store);
    let Committed::Executed { value, cursor } = committed else {
        panic!("unreachable: create_first_attempt asserts Executed");
    };
    assert_eq!(value.attempt_id, "attempt-1");
    assert_eq!(value.ordinal, 1);
    assert_eq!(value.launch_key, launch_key(0xAA));
    assert_eq!(value.session_id, "acs-1");
    assert_eq!(value.restore_generation, store.restore_generation());
    assert_eq!(cursor.sequence, 1);
    assert_eq!(store.events.len(), 1);
    assert_eq!(store.attempt_status.len(), 1);
    assert_eq!(
        store.run_status[0].current_attempt_id.as_deref(),
        Some("attempt-1")
    );
}

#[test]
fn conflicting_command_reuse_fails_closed() {
    let mut store = world(true);
    create_first_attempt(&mut store);
    let error = t4(
        &mut store,
        "t4-run1-ord1",
        [0x99u8; 32],
        "attempt-1",
        0xAA,
        "acs-1",
        &[7u8; 32],
    )
    .expect_err("identity reuse with a different request fails closed");
    assert!(matches!(error, StoreError::CommandConflict { .. }));
    assert_eq!(store.attempts.len(), 1);
}

#[test]
fn an_attempt_needs_the_attached_context_plan() {
    let mut store = world(false);
    let error = t4(
        &mut store,
        "t4-run1-ord1",
        [0x31u8; 32],
        "attempt-1",
        0xAA,
        "acs-1",
        &[7u8; 32],
    )
    .expect_err("no ContextPlan");
    assert!(matches!(error, StoreError::AttemptNotLaunchReady { .. }));
    assert!(store.attempts.is_empty());
    assert!(store.events.is_empty());
}

#[test]
fn a_second_live_attempt_is_refused() {
    let mut store = world(true);
    create_first_attempt(&mut store);
    let error = t4(
        &mut store,
        "t4-run1-ord2",
        [0x32u8; 32],
        "attempt-2",
        0xBB,
        "acs-2",
        &[7u8; 32],
    )
    .expect_err("one nonterminal Attempt per Run");
    assert!(matches!(error, StoreError::AttemptNotLaunchReady { .. }));
    assert_eq!(store.attempts.len(), 1);
}
