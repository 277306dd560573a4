use pantheon_store::command::Command;
use pantheon_store::configuration::{CompiledConfiguration, ComponentDigests, ConfigurationComponent};
use pantheon_store::migrations::migrations;
use pantheon_store::operator::{Cursor, CursorError};
use pantheon_store::planning::GoalSpec;
use pantheon_store::revision::Revision;
use pantheon_store::store::Store;

fn command<'a>(epoch: &'a str, id: &'a str, hash: &'a [u8; 32], event: &'a str) -> Command<'a> {
    Command { epoch, id, request_hash: hash, event_type: event }
}

/// A store with an active configuration: its activation is itself a
/// command, so the journal head is already past zero.
fn store_with_configuration() -> Store {
    let mut store = Store::new();
    let component = |domain: &str, seed: u8| ConfigurationComponent {
        digest: [seed; 32],
        domain: domain.to_string(),
        canonical_json: format!("{{\"{domain}\":{seed}}}"),
    };
    let compiled = CompiledConfiguration {
        components: vec![
            component("agents", 1),
            component("routing", 2),
            component("executionProfiles", 3),
            component("evaluators", 4),
            component("context", 5),
            component("authorization", 6),
        ],
        component_digests: ComponentDigests {
            agents: [1; 32],
            routing: [2; 32],
            execution_profile: [3; 32],
            evaluator_registry: [4; 32],
            context_policy: [5; 32],
            authorization: [6; 32],
        },
        revision_digest: [0x50; 32],
        compiler_version: "compiler-1".to_string(),
    };
    let epoch = store.restore_generation().to_string();
    store
        .activate_configuration(
            &command(&epoch, "cfg-1", &[3; 32], "configuration.activated"),
            &compiled,
            [0x5e; 32],
            Revision::new(1),
        )
        .expect("activation commits");
    store
}

fn create(store: &mut Store, goal_id: &str, command_id: &str) {
    let epoch = store.restore_generation().to_string();
    store
        .create_goal(
            &command(&epoch, command_id, &[7; 32], "goal.created"),
            goal_id,
            &GoalSpec { digest: &[0x61; 32], canonical_json: "{}" },
        )
        .expect("goal commits");
}

#[test]
fn a_cursor_survives_its_wire_form_exactly() {
    let cursor = Cursor {
        journal_epoch: "a".repeat(32),
        sequence: 41,
    };
    assert_eq!(Cursor::parse(&cursor.to_wire()), Some(cursor.clone()));
    assert_eq!(Cursor::parse("41"), None);
    assert_eq!(Cursor::parse(":41"), None);
    assert_eq!(Cursor::parse(&format!("{}:x", "a".repeat(32))), None);
}

#[test]
fn a_cursor_spells_epoch_then_sequence() {
    let cursor = Cursor {
        journal_epoch: "e".repeat(32),
        sequence: -7,
    };
    assert_eq!(cursor.to_wire(), format!("{}:-7", "e".repeat(32)));
}

#[test]
fn a_fresh_installation_reports_a_cursor_before_anything() {
    let store = store_with_configuration();
    // The head is the last committed sequence, not the next to be allocated.
    let head = store.journal_head();
    assert_eq!(head.sequence, 1);
    let events = store
        .events_after(&Cursor { journal_epoch: head.journal_epoch.clone(), sequence: head.sequence }, 16)
        .expect("cursor accepted");
    assert!(events.is_empty(), "nothing has been committed after the head");
    assert_eq!(Store::new().journal_head().sequence, 0, "a bare installation is before everything");
}

#[test]
fn the_snapshot_cursor_is_the_position_the_listed_goals_correspond_to() {
    let mut store = store_with_configuration();
    create(&mut store, "goal-1", "c1");
    create(&mut store, "goal-2", "c2");

    let snapshot = store.goal_snapshot().expect("snapshot");
    assert_eq!(snapshot.goals.iter().map(|g| g.id.as_str()).collect::<Vec<_>>(), ["goal-1", "goal-2"]);

    let after = store.events_after(&snapshot.cursor, 16).expect("cursor accepted");
    assert!(after.is_empty(), "the snapshot cursor must not leave already-listed state unwatched");

    create(&mut store, "goal-3", "c3");
    let gap = store.events_after(&snapshot.cursor, 16).expect("cursor accepted");
    assert_eq!(gap.len(), 1, "the Event for the third Goal must be reachable");
    assert_eq!(gap[0].event_type, "goal.created");
    assert_eq!(gap[0].command_id.as_deref(), Some("c3"));
}

#[test]
fn events_after_returns_history_in_committed_order_and_respects_the_limit() {
    let mut store = store_with_configuration();
    let start = store.journal_head();
    for (index, goal) in ["goal-1", "goal-2", "goal-3"].iter().enumerate() {
        create(&mut store, goal, &format!("c{index}"));
    }

    let all = store.events_after(&start, 16).expect("cursor accepted");
    assert_eq!(all.len(), 3);
    assert!(all.windows(2).all(|pair| pair[0].sequence < pair[1].sequence), "history must be oldest first");

    let page = store.events_after(&start, 2).expect("cursor accepted");
    assert_eq!(page.len(), 2);
    assert_eq!(page[1].cursor().sequence, all[1].sequence);
}

#[test]
fn a_cursor_from_another_journal_history_is_refused_rather_than_restarted() {
    let mut store = store_with_configuration();
    create(&mut store, "goal-1", "c1");

    let refusal = store
        .events_after(&Cursor { journal_epoch: "0".repeat(32), sequence: 0 }, 16)
        .expect_err("a foreign epoch must be refused");
    match refusal {
        CursorError::UnknownEpoch { supplied, current } => {
            assert_eq!(supplied, "0".repeat(32));
            assert_ne!(current, supplied);
        }
        other => panic!("unexpected refusal: {other:?}"),
    }
}

#[test]
fn a_cursor_ahead_of_the_journal_head_is_refused() {
    let store = store_with_configuration();
    let head = store.journal_head();

    let refusal = store
        .events_after(&Cursor { journal_epoch: head.journal_epoch.clone(), sequence: head.sequence + 1 }, 16)
        .expect_err("a cursor past the head must be refused");
    match refusal {
        CursorError::AheadOfJournal { supplied, head: at } => {
            assert_eq!(supplied, head.sequence + 1);
            assert_eq!(at, head.sequence);
        }
        other => panic!("unexpected refusal: {other:?}"),
    }
}

#[test]
fn the_schema_version_is_the_migrated_version_not_a_compiled_constant() {
    let store = store_with_configuration();
    let reported = store.schema_version();
    let expected = store.schema_migrations.iter().map(|m| m.version).max().expect("bookkeeping");
    assert_eq!(reported, expected);
    assert_eq!(expected, migrations().iter().map(|m| m.version).max().expect("a migration"));

    // The reported version follows the bookkeeping, not the compiled set.
    let mut partial = store_with_configuration();
    partial.schema_migrations.truncate(6);
    assert_eq!(partial.schema_version(), 6);
}

#[test]
fn a_replay_is_decided_from_durable_state_not_process_memory() {
    // The ledger row and its Event were written by another writer, never by
    // this process: a replay must be decided from what is stored.
    let mut store = Store::new();
    let epoch = store.restore_generation().to_string();
    let journal_epoch = store.journal_epoch.clone();
    store.events.push(pantheon_store::operator::EventRecord {
        event_id: "e".repeat(32),
        journal_epoch: journal_epoch.clone(),
        sequence: 1,
        event_type: "external".to_string(),
        recorded_at: 1,
        command_epoch: Some(epoch.clone()),
        command_id: Some("cmd-external".to_string()),
    });
    store.commands.push(pantheon_store::command::CommandRow {
        command_epoch: epoch.clone(),
        command_id: "cmd-external".to_string(),
        request_hash: vec![1; 32],
        journal_epoch,
        sequence: 1,
        recorded_at: 1,
    });
    store.next_sequence = 2;

    let outcome = store
        .create_goal(
            &command(&epoch, "cmd-external", &[1; 32], "goal.created"),
            "goal-1",
            &GoalSpec {
                digest: &[0x61; 32],
                canonical_json: "{\"title\":\"g\"}",
            },
        )
        .expect("the externally recorded command reconciles");
    assert!(matches!(outcome, pantheon_store::command::Committed::Replayed { .. }));
    assert_eq!(outcome.cursor().sequence(), 1);
    assert!(store.goals.is_empty(), "no mutation occurred");
    assert_eq!(store.events.len(), 1);
}

#[test]
fn a_command_with_an_empty_or_overlong_identity_is_refused_and_writes_nothing() {
    let mut store = Store::new();
    let epoch = store.restore_generation().to_string();
    let spec = GoalSpec {
        digest: &[0x61; 32],
        canonical_json: "{\"title\":\"g\"}",
    };
    let err = store
        .create_goal(&command(&epoch, "", &[1; 32], "goal.created"), "goal-1", &spec)
        .expect_err("an empty command id is refused");
    assert!(matches!(err, pantheon_store::error::StoreError::ConstraintViolated(_)), "{err:?}");
    let long_id = "c".repeat(129);
    let err = store
        .create_goal(&command(&epoch, &long_id, &[1; 32], "goal.created"), "goal-1", &spec)
        .expect_err("an overlong command id is refused");
    assert!(matches!(err, pantheon_store::error::StoreError::ConstraintViolated(_)), "{err:?}");
    let err = store
        .create_goal(&command(&epoch, "cmd-1", &[1; 32], ""), "goal-1", &spec)
        .expect_err("an empty event type is refused");
    assert!(matches!(err, pantheon_store::error::StoreError::ConstraintViolated(_)), "{err:?}");
    assert!(store.goals.is_empty());
    assert!(store.commands.is_empty());
    assert!(store.events.is_empty());
    store
        .create_goal(&command(&epoch, &"c".repeat(128), &[1; 32], "goal.created"), "goal-1", &spec)
        .expect("128 characters is the limit, not past it");
}
