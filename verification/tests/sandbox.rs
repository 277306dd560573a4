use pantheon_store::command::{Command, Committed};
use pantheon_store::error::StoreError;
use pantheon_store::sandbox::{SandboxBinding, SandboxPhase, SandboxPresence, SandboxRecord};
use pantheon_store::store::Store;

fn command<'a>(epoch: &'a str, id: &'a str) -> Command<'a> {
    Command { epoch, id, request_hash: &[0u8; 32], event_type: "test" }
}

const PLAN_DIGEST: [u8; 32] = [0x70; 32];

fn binding(run_id: &str) -> SandboxBinding<'_> {
    SandboxBinding { run_id, sandbox_plan_digest: &PLAN_DIGEST, environment_identity: "env-1" }
}

fn executed(c: Committed<SandboxRecord>) -> SandboxRecord {
    match c {
        Committed::Executed { value, .. } => value,
        _ => panic!("expected Executed"),
    }
}

#[test]
fn create_sandbox_establishes_identity() {
    let mut store = Store::new();
    let epoch = store.restore_generation().to_string();
    let record = executed(store.create_sandbox(&command(&epoch, "cmd-1"), "sandbox-a", &binding("run-1")).unwrap());

    assert_eq!(record.id, "sandbox-a");
    assert_eq!(record.run_id, "run-1");
    assert_eq!(record.phase, SandboxPhase::Requested);
    assert_eq!(record.observed_presence, SandboxPresence::Absent);
    assert_eq!(record.revision.get(), 1);
}

#[test]
fn create_sandbox_is_idempotent() {
    let mut store = Store::new();
    let epoch = store.restore_generation().to_string();
    let first = store.create_sandbox(&command(&epoch, "cmd-1"), "sandbox-b", &binding("run-1")).unwrap();
    let second = store.create_sandbox(&command(&epoch, "cmd-1"), "sandbox-b", &binding("run-1")).unwrap();

    assert!(matches!(first, Committed::Executed { .. }));
    assert!(matches!(second, Committed::Replayed { .. }));
}

#[test]
fn lifecycle_transitions_work() {
    let mut store = Store::new();
    let epoch = store.restore_generation().to_string();
    let record = executed(store.create_sandbox(&command(&epoch, "cmd-1"), "sandbox-c", &binding("run-1")).unwrap());

    let record =
        executed(store.begin_sandbox_preparation(&command(&epoch, "cmd-2"), "sandbox-c", record.revision).unwrap());
    assert_eq!(record.phase, SandboxPhase::Preparing);

    let record =
        executed(store.complete_sandbox_preparation(&command(&epoch, "cmd-3"), "sandbox-c", record.revision).unwrap());
    assert_eq!(record.phase, SandboxPhase::Ready);

    let record = executed(store.begin_sandbox_release(&command(&epoch, "cmd-4"), "sandbox-c", record.revision).unwrap());
    assert_eq!(record.phase, SandboxPhase::Releasing);

    let record = executed(
        store
            .complete_sandbox_release(&command(&epoch, "cmd-5"), "sandbox-c", record.revision, SandboxPresence::Absent)
            .unwrap(),
    );
    assert_eq!(record.phase, SandboxPhase::Released);
}

#[test]
fn revision_conflict_on_stale_update() {
    let mut store = Store::new();
    let epoch = store.restore_generation().to_string();
    let record = executed(store.create_sandbox(&command(&epoch, "cmd-1"), "sandbox-d", &binding("run-1")).unwrap());

    store.begin_sandbox_preparation(&command(&epoch, "cmd-2"), "sandbox-d", record.revision).unwrap();

    let err = store.begin_sandbox_preparation(&command(&epoch, "cmd-3"), "sandbox-d", record.revision).unwrap_err();
    assert!(matches!(err, StoreError::RevisionConflict { .. }));
}

#[test]
fn sandbox_for_run_returns_current() {
    let mut store = Store::new();
    let epoch = store.restore_generation().to_string();
    store.create_sandbox(&command(&epoch, "cmd-1"), "sandbox-e", &binding("run-2")).unwrap();

    let found = store.sandbox_for_run("run-2");
    assert!(found.is_some());
    assert_eq!(found.unwrap().id, "sandbox-e");

    let missing = store.sandbox_for_run("run-3");
    assert!(missing.is_none());
}

#[test]
fn nonreleased_inventory_excludes_released() {
    let mut store = Store::new();
    let epoch = store.restore_generation().to_string();

    // Create two sandboxes.
    store.create_sandbox(&command(&epoch, "cmd-1"), "sandbox-f1", &binding("run-a")).unwrap();
    let record = executed(store.create_sandbox(&command(&epoch, "cmd-2"), "sandbox-f2", &binding("run-b")).unwrap());

    // Transition the second one to Ready, then release it.
    let record =
        executed(store.begin_sandbox_preparation(&command(&epoch, "cmd-3"), "sandbox-f2", record.revision).unwrap());
    let record =
        executed(store.complete_sandbox_preparation(&command(&epoch, "cmd-4"), "sandbox-f2", record.revision).unwrap());
    let record = executed(store.begin_sandbox_release(&command(&epoch, "cmd-5"), "sandbox-f2", record.revision).unwrap());
    store
        .complete_sandbox_release(&command(&epoch, "cmd-6"), "sandbox-f2", record.revision, SandboxPresence::Absent)
        .unwrap();

    let inventory = store.nonreleased_sandbox_inventory();
    assert_eq!(inventory.len(), 1);
    assert_eq!(inventory[0].id, "sandbox-f1");
}

#[test]
fn a_failure_moves_any_phase_to_error_with_what_is_known() {
    let mut store = Store::new();
    let epoch = store.restore_generation().to_string();
    let record = executed(store.create_sandbox(&command(&epoch, "cmd-1"), "sandbox-f", &binding("run-1")).unwrap());
    let record =
        executed(store.begin_sandbox_preparation(&command(&epoch, "cmd-2"), "sandbox-f", record.revision).unwrap());
    let failed = executed(
        store.fail_sandbox(&command(&epoch, "cmd-3"), "sandbox-f", record.revision, SandboxPresence::Unknown).unwrap(),
    );
    assert_eq!(failed.phase, SandboxPhase::Error);
    assert_eq!(failed.observed_presence, SandboxPresence::Unknown);
    assert_eq!(failed.revision.get(), record.revision.get() + 1);
}

#[test]
fn a_failure_cannot_claim_the_sandbox_is_present() {
    let mut store = Store::new();
    let epoch = store.restore_generation().to_string();
    let record = executed(store.create_sandbox(&command(&epoch, "cmd-1"), "sandbox-g", &binding("run-1")).unwrap());
    let err = store
        .fail_sandbox(&command(&epoch, "cmd-2"), "sandbox-g", record.revision, SandboxPresence::Present)
        .unwrap_err();
    assert!(matches!(err, StoreError::InvariantViolated(_)), "{err:?}");
    assert_eq!(store.sandbox_by_id("sandbox-g").unwrap().phase, SandboxPhase::Requested);
}

#[test]
fn presence_updates_keep_the_phase_and_respect_its_constraint() {
    let mut store = Store::new();
    let epoch = store.restore_generation().to_string();
    let record = executed(store.create_sandbox(&command(&epoch, "cmd-1"), "sandbox-h", &binding("run-1")).unwrap());
    let record =
        executed(store.begin_sandbox_preparation(&command(&epoch, "cmd-2"), "sandbox-h", record.revision).unwrap());
    let updated = executed(
        store
            .update_sandbox_presence(&command(&epoch, "cmd-3"), "sandbox-h", record.revision, SandboxPresence::Present)
            .unwrap(),
    );
    assert_eq!(updated.phase, SandboxPhase::Preparing);
    assert_eq!(updated.observed_presence, SandboxPresence::Present);

    let ready = executed(
        store.complete_sandbox_preparation(&command(&epoch, "cmd-4"), "sandbox-h", updated.revision).unwrap(),
    );
    // A Ready Sandbox is present by constraint.
    let err = store
        .update_sandbox_presence(&command(&epoch, "cmd-5"), "sandbox-h", ready.revision, SandboxPresence::Absent)
        .unwrap_err();
    assert!(matches!(err, StoreError::ConstraintViolated(_)), "{err:?}");
}

#[test]
fn a_sandbox_is_found_by_id_in_any_phase() {
    let mut store = Store::new();
    let epoch = store.restore_generation().to_string();
    assert!(store.sandbox_by_id("sandbox-i").is_none());
    let record = executed(store.create_sandbox(&command(&epoch, "cmd-1"), "sandbox-i", &binding("run-1")).unwrap());
    let found = store.sandbox_by_id("sandbox-i").expect("found");
    assert_eq!(found, record);
}

#[test]
fn probe_evidence_is_recorded_and_read_back() {
    let mut store = Store::new();
    let epoch = store.restore_generation().to_string();
    executed(store.create_sandbox(&command(&epoch, "cmd-1"), "sandbox-j", &binding("run-1")).unwrap());
    let evidence = pantheon_store::sandbox::SandboxProbeEvidence {
        sandbox_id: "sandbox-j",
        probe_name: "network-egress",
        expected: "denied",
        observed: "denied",
        passed: true,
        backend_descriptor: "fake-local",
        backend_version: "1",
        platform: "linux",
        architecture: "x86_64",
        probe_implementation_version: "probe-1",
    };
    let committed = store.record_sandbox_probe_evidence(&command(&epoch, "cmd-2"), &evidence).unwrap();
    assert!(committed.was_executed());
    let probes = store.sandbox_probe_results("sandbox-j");
    assert_eq!(probes.len(), 1);
    assert_eq!(probes[0].probe_name, "network-egress");
    assert_eq!(probes[0].observed, "denied");
    assert!(probes[0].passed);
    assert!(store.sandbox_probe_results("sandbox-other").is_empty());
}
