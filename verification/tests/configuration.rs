use pantheon_store::command::{Command, Committed};
use pantheon_store::configuration::{
    ActiveConfiguration, CompiledConfiguration, ComponentDigests, ConfigurationComponent,
};
use pantheon_store::error::StoreError;
use pantheon_store::revision::Revision;
use pantheon_store::store::Store;

fn component(domain: &str, seed: u8, json: &str) -> ConfigurationComponent {
    ConfigurationComponent {
        digest: [seed; 32],
        domain: domain.to_string(),
        canonical_json: json.to_string(),
    }
}

/// A small internally consistent compiled configuration whose `context`
/// component varies with `memory_limit`.
fn compiled(memory_limit: i64) -> CompiledConfiguration {
    let context_seed = 0x40u8.wrapping_add(memory_limit as u8);
    let components = vec![
        component("agents", 1, "{\"agents\":[]}"),
        component("routing", 2, "{\"policies\":[]}"),
        component("executionProfiles", 3, "{\"profiles\":[]}"),
        component("evaluators", 4, "{\"refs\":[],\"versions\":[]}"),
        component(
            "context",
            context_seed,
            &format!("{{\"memoryLimitTokens\":{memory_limit}}}"),
        ),
        component("authorization", 6, "{\"rules\":[]}"),
    ];
    CompiledConfiguration {
        components,
        component_digests: ComponentDigests {
            agents: [1; 32],
            routing: [2; 32],
            execution_profile: [3; 32],
            evaluator_registry: [4; 32],
            context_policy: [context_seed; 32],
            authorization: [6; 32],
        },
        revision_digest: [context_seed ^ 0x80; 32],
        compiler_version: "compiler-1".to_string(),
    }
}

fn activate(
    store: &mut Store,
    id: &str,
    memory_limit: i64,
    expected: Revision,
) -> Result<Committed<ActiveConfiguration>, StoreError> {
    let epoch = store.restore_generation().to_string();
    let compiled = compiled(memory_limit);
    store.activate_configuration(
        &Command {
            epoch: epoch.as_str(),
            id,
            request_hash: &[7u8; 32],
            event_type: "configuration.activated",
        },
        &compiled,
        [9u8; 32],
        expected,
    )
}

#[test]
fn replaying_an_activation_command_does_not_create_a_second_revision() {
    let mut store = Store::new();
    activate(&mut store, "cmd-1", 4000, Revision::new(1)).expect("first activation");

    let replay =
        activate(&mut store, "cmd-1", 4000, Revision::new(1)).expect("the retry reconciles");
    assert!(
        !replay.was_executed(),
        "a repeated activation command must not execute again"
    );
    assert_eq!(
        store.configuration_revisions.len(),
        1,
        "replay must not create a second ConfigurationRevision"
    );
    assert_eq!(
        store.events.len(),
        1,
        "replay must not append a duplicate activation Event"
    );
}

#[test]
fn a_fresh_installation_has_no_configuration_authority() {
    let store = Store::new();
    let pointer = store.configuration_pointer().expect("read pointer");
    assert!(pointer.active.is_none());
    assert_eq!(pointer.revision, Revision::new(1));
    assert_eq!(store.active_evaluator_component_json().expect("read"), None);
}

#[test]
fn the_first_activation_establishes_durable_authority() {
    let mut store = Store::new();
    let committed =
        activate(&mut store, "cmd-1", 4000, Revision::new(1)).expect("activation commits");
    assert!(committed.was_executed());

    let pointer = store.configuration_pointer().expect("read pointer");
    let active = pointer.active.expect("a revision is active");
    assert_eq!(active.activation_sequence, 1);
    assert_eq!(active.content_digest, compiled(4000).revision_digest);
    assert_eq!(active.components, compiled(4000).component_digests);
    assert_eq!(active.source_set_digest, [9u8; 32]);
    assert_eq!(pointer.revision, Revision::new(2));
    assert_eq!(store.configuration_components.len(), 6);
    assert_eq!(
        store.active_evaluator_component_json().expect("read"),
        Some("{\"refs\":[],\"versions\":[]}".to_string())
    );
}

#[test]
fn a_second_activation_shares_unchanged_components_and_advances_the_sequence() {
    let mut store = Store::new();
    activate(&mut store, "cmd-1", 4000, Revision::new(1)).expect("first");
    let second = activate(&mut store, "cmd-2", 5000, Revision::new(2)).expect("second");
    match second {
        Committed::Executed { value, cursor } => {
            assert_eq!(value.activation_sequence, 2);
            assert_eq!(value.pointer_revision, Revision::new(3));
            assert_eq!(cursor.sequence, 2);
        }
        Committed::Replayed { .. } => panic!("a new command executes"),
    }
    // Only the context component differs; the other five are shared.
    assert_eq!(store.configuration_components.len(), 7);
    assert_eq!(store.configuration_revisions.len(), 2);
}

#[test]
fn a_stale_pointer_revision_loses_and_changes_nothing() {
    let mut store = Store::new();
    activate(&mut store, "cmd-1", 4000, Revision::new(1)).expect("first");
    let err = activate(&mut store, "cmd-2", 5000, Revision::new(1)).expect_err("stale");
    match err {
        StoreError::RevisionConflict {
            table,
            id,
            expected,
            actual,
        } => {
            assert_eq!(table, "active_configuration");
            assert_eq!(id, "singleton");
            assert_eq!(expected, 1);
            assert_eq!(actual, Some(2));
        }
        other => panic!("unexpected error: {other:?}"),
    }
    let active = store.configuration_pointer().unwrap().active.unwrap();
    assert_eq!(active.activation_sequence, 1);
    assert_eq!(store.configuration_revisions.len(), 1);
    assert_eq!(store.configuration_components.len(), 6);
    assert_eq!(store.events.len(), 1);
}

#[test]
fn a_revision_binding_an_unstored_component_is_refused() {
    let mut store = Store::new();
    let mut broken = compiled(4000);
    broken.component_digests.routing = [0xEE; 32];
    let epoch = store.restore_generation().to_string();
    let err = store
        .activate_configuration(
            &Command {
                epoch: epoch.as_str(),
                id: "cmd-1",
                request_hash: &[7u8; 32],
                event_type: "configuration.activated",
            },
            &broken,
            [9u8; 32],
            Revision::new(1),
        )
        .expect_err("the reference is dangling");
    assert!(matches!(err, StoreError::ConstraintViolated(_)));
    assert!(store.configuration_pointer().unwrap().active.is_none());
    assert!(store.events.is_empty());
}

#[test]
fn an_activation_under_a_stale_epoch_is_fenced() {
    let mut store = Store::new();
    let compiled = compiled(4000);
    let err = store
        .activate_configuration(
            &Command {
                epoch: "not-the-current-generation",
                id: "cmd-1",
                request_hash: &[7u8; 32],
                event_type: "configuration.activated",
            },
            &compiled,
            [9u8; 32],
            Revision::new(1),
        )
        .expect_err("stale epoch");
    assert!(matches!(err, StoreError::StaleCommandEpoch { .. }));
    assert!(store.commands.is_empty());
}

#[test]
fn a_second_activation_supersedes_the_first_atomically() {
    let mut store = Store::new();
    activate(&mut store, "cmd-1", 4000, Revision::new(1)).expect("first activation");
    let pointer = store.configuration_pointer().expect("read pointer");

    activate(&mut store, "cmd-2", 4096, pointer.revision).expect("second activation");

    let after = store.configuration_pointer().expect("read pointer");
    let active = after.active.expect("active");
    assert_eq!(active.activation_sequence, 2, "activation history moves forward");
    assert_eq!(active.content_digest, compiled(4096).revision_digest);
    // Every component digest is the new revision's: nothing is left behind
    // from the old one.
    assert_eq!(active.components, compiled(4096).component_digests);
}

#[test]
fn activating_against_a_stale_pointer_observation_loses_deterministically() {
    // Two activations derived from the same observed pointer revision cannot
    // both commit.
    let mut store = Store::new();
    activate(&mut store, "cmd-1", 4000, Revision::new(1)).expect("first activation");
    let stale = Revision::new(1);

    let err = activate(&mut store, "cmd-2", 4096, stale).expect_err("a stale activation must fail");
    assert!(matches!(err, StoreError::RevisionConflict { .. }), "unexpected error: {err:?}");

    // And the earlier revision is still completely authoritative.
    let active = store.configuration_pointer().expect("read pointer").active.expect("active");
    assert_eq!(active.activation_sequence, 1);
    assert_eq!(active.content_digest, compiled(4000).revision_digest);
}

#[test]
fn a_failed_activation_leaves_no_revision_and_no_component_behind() {
    // A failure cannot leave a partially active mixture, and must not advance
    // the pointer to an unusable revision.
    let mut store = Store::new();
    activate(&mut store, "cmd-1", 4000, Revision::new(1)).expect("first activation");

    let epoch = store.restore_generation().to_string();
    let pointer = store.configuration_pointer().expect("pointer");
    // A candidate with a new context component, whose routing binding
    // dangles: it is refused only after its components were considered.
    let mut candidate = compiled(4096);
    candidate.component_digests.routing = [0xEE; 32];
    let err = store
        .activate_configuration(
            &Command {
                epoch: epoch.as_str(),
                id: "cmd-doomed",
                request_hash: &[9u8; 32],
                event_type: "configuration.activated",
            },
            &candidate,
            [9u8; 32],
            pointer.revision,
        )
        .expect_err("the activation is refused");
    assert!(matches!(err, StoreError::ConstraintViolated(_)));

    let active = store.configuration_pointer().expect("pointer").active.expect("active");
    assert_eq!(active.activation_sequence, 1, "the pointer must not have moved");
    assert_eq!(active.content_digest, compiled(4000).revision_digest);
    assert_eq!(store.configuration_revisions.len(), 1, "the candidate revision row must not survive");
    assert_eq!(
        store.configuration_components.len(),
        6,
        "only the committed revision's components may exist"
    );
}

#[test]
fn a_component_stored_under_the_wrong_domain_fails_closed() {
    // Content addressing alone does not prove a component is being used as
    // what it was compiled as.
    let mut store = Store::new();
    activate(&mut store, "cmd-1", 4000, Revision::new(1)).expect("activation");
    let context = store
        .configuration_components
        .iter_mut()
        .find(|c| c.domain == "context")
        .expect("a context component");
    context.domain = "evaluators".to_string();

    let err = store.configuration_pointer().expect_err("a relabelled component must fail closed");
    assert!(
        matches!(err, StoreError::InvariantViolated(ref d) if d.contains("stored as")),
        "unexpected error: {err:?}"
    );
}
