use pantheon_store::agent_control::{
    AgentCredential, AgentOperation, AgentRequestOpened, AgentRequestState, DeclaredOutput,
};
use pantheon_store::artifacts::{ProducerProvenance, SealAuthority, SealOutcome, SealedChangeset};
use pantheon_store::cancel::{Cancellation, GoalTargetRow, TaskTargetRow};
use pantheon_store::command::{Command, Committed};
use pantheon_store::configuration::{
    CompiledConfiguration, ComponentDigests, ConfigurationComponent,
};
use pantheon_store::context::{AttachedContextPlan, ContextPlanAttachment, ContextPlanRow};
use pantheon_store::execution::RunContextPlanRecord;
use pantheon_store::error::StoreError;
use pantheon_store::execution::{
    AttemptCreated, AttemptCreation, AttemptLineageView, AttemptStatusRow, LaunchContactState, Observation,
    ObservationUpdate, RunInventoryEntry, SessionRow,
};
use pantheon_store::planning::{
    GoalPhase, GoalSpec, MaterializablePlan, PlanningDecision, ProposalRecord, TaskPhase,
};
use pantheon_store::revision::Revision;
use pantheon_store::scheduling::{
    ContextSourceSnapshot, ExecutionBinding, GoalSchedulingRow, RunIntent, TaskSchedulingRow, WorkspaceRow,
};
use pantheon_store::store::Store;
use pantheon_store::submission::{CandidateOutput, CandidateResult, CandidateSubmission};

fn base() -> String {
    "a".repeat(40)
}

fn digests() -> ComponentDigests {
    ComponentDigests {
        agents: [1; 32],
        routing: [2; 32],
        execution_profile: [3; 32],
        evaluator_registry: [4; 32],
        context_policy: [5; 32],
        authorization: [6; 32],
    }
}

fn compiled() -> CompiledConfiguration {
    let component = |domain: &str, seed: u8| ConfigurationComponent {
        digest: [seed; 32],
        domain: domain.to_string(),
        canonical_json: format!("{{\"{domain}\":{seed}}}"),
    };
    CompiledConfiguration {
        components: vec![
            component("agents", 1),
            component("routing", 2),
            component("executionProfiles", 3),
            component("evaluators", 4),
            component("context", 5),
            component("authorization", 6),
        ],
        component_digests: digests(),
        revision_digest: [0x50; 32],
        compiler_version: "compiler-1".to_string(),
    }
}

fn cmd<'a>(epoch: &'a str, id: &'a str, hash: &'a [u8; 32], event: &'a str) -> Command<'a> {
    Command {
        epoch,
        id,
        request_hash: hash,
        event_type: event,
    }
}

fn executed<T: std::fmt::Debug>(c: Committed<T>) -> T {
    match c {
        Committed::Executed { value, .. } => value,
        other => panic!("expected an executed command, got {other:?}"),
    }
}

/// A store with an active configuration, one Goal, and one Ready Task.
fn planned() -> (Store, String) {
    let mut store = Store::new();
    let epoch = store.restore_generation().to_string();
    executed(
        store
            .activate_configuration(
                &cmd(&epoch, "cmd-config", &[1; 32], "configuration.activated"),
                &compiled(),
                [9; 32],
                Revision::new(1),
            )
            .expect("activation"),
    );
    let goal = executed(
        store
            .create_goal(
                &cmd(&epoch, "cmd-goal", &[2; 32], "goal.created"),
                "goal-1",
                &GoalSpec {
                    digest: &[0x61; 32],
                    canonical_json: "{\"title\":\"g\"}",
                },
            )
            .expect("goal"),
    );
    assert_eq!(goal.phase, GoalPhase::Planning);
    executed(
        store
            .record_direct_planning(
                &cmd(&epoch, "cmd-plan", &[3; 32], "planning.recorded"),
                &PlanningDecision {
                    operation_id: "op-1",
                    goal_id: "goal-1",
                    goal_revision: 1,
                    expected_graph_revision: 0,
                    configuration_activation_sequence: 1,
                    planning_input_digest: [0x62; 32],
                    trigger_kind: "initial",
                    planner_implementation: "direct",
                    planner_version: "1",
                },
                &ProposalRecord {
                    digest: [0x63; 32],
                    canonical: "{}",
                    normalization_provenance: "normalized",
                },
            )
            .expect("planning"),
    );
    let outputs = vec![DeclaredOutput {
        name: "patch".to_string(),
        kind: "code.changeset".to_string(),
        required: true,
    }];
    let plan = executed(
        store
            .materialize_plan(
                &cmd(&epoch, "cmd-materialize", &[4; 32], "graph.patched"),
                "op-1",
                "task-1",
                &MaterializablePlan {
                    goal_revision: 1,
                    goal_content_digest: [0x61; 32],
                    proposal_digest: [0x63; 32],
                    spec_digest: [0x64; 32],
                    spec_canonical_json: "{\"spec\":1}",
                    acceptance_digest: [0x65; 32],
                    evaluator_registry_digest: [4; 32],
                    configuration_activation_sequence: 1,
                    outputs: &outputs,
                },
            )
            .expect("materialization"),
    );
    assert_eq!(plan.task.phase, TaskPhase::Ready);
    assert_eq!(plan.graph_revision, 1);
    assert_eq!(plan.goal_phase, GoalPhase::Active);
    (store, epoch)
}

/// `planned()` plus a Ready Workspace and an eligible scheduling row, with a
/// committed Run intent.
fn dispatched() -> (Store, String) {
    let (mut store, epoch) = planned();
    store.workspaces.push(WorkspaceRow {
        id: "ws-1".to_string(),
        task_id: "task-1".to_string(),
        phase: "Ready".to_string(),
        materialization: "Present".to_string(),
        revision: 3,
        resolved_base: base(),
    });
    store.task_scheduling.push(TaskSchedulingRow {
        task_id: "task-1".to_string(),
        eligible_since: Some(100),
        next_attempt_at: None,
        last_failure_code: None,
        last_failure_detail_json: None,
        revision: 1,
    });
    let commit = executed(
        store
            .commit_run_intent(
                &cmd(&epoch, "cmd-t3", &[11; 32], "run.committed"),
                &intent(&binding(), &snapshot()),
            )
            .expect("T3 commits"),
    );
    assert_eq!(commit.run_id, "run-1");
    assert_eq!(commit.charged_service_sequence, 1);
    assert_eq!(commit.task_revision, Revision::new(2));
    assert_eq!(commit.scheduler_revision, Revision::new(2));
    (store, epoch)
}

fn binding() -> ExecutionBinding {
    ExecutionBinding {
        task_id: "task-1".to_string(),
        configuration_activation_sequence: 1,
        configuration_content_digest: [0x50; 32],
        component_digests: digests(),
        canonical_json: "{\"binding\":1}".to_string(),
    }
}

fn snapshot() -> ContextSourceSnapshot {
    ContextSourceSnapshot {
        task_spec_digest: [0x64; 32],
        goal_id: "goal-1".to_string(),
        goal_revision: 1,
        graph_revision: 1,
        agent_name: "builder".to_string(),
        agent_version: 1,
        configuration_activation_sequence: 1,
        context_policy_digest: [5; 32],
        workspace_id: "ws-1".to_string(),
        workspace_resolved_base: base(),
        canonical_json: "{\"snapshot\":1}".to_string(),
    }
}

fn intent<'a>(binding: &'a ExecutionBinding, snapshot: &'a ContextSourceSnapshot) -> RunIntent<'a> {
    RunIntent {
        run_id: "run-1",
        task_id: "task-1",
        goal_id: "goal-1",
        expected_task_revision: Revision::new(1),
        expected_goal_row_revision: Revision::new(2),
        expected_goal_current_revision: 1,
        expected_graph_revision: 1,
        expected_workspace_revision: Revision::new(3),
        expected_scheduler_revision: Revision::new(1),
        expected_goal_fairness_revision: None,
        expected_task_scheduling_revision: Revision::new(1),
        configuration_activation_sequence: 1,
        binding_digest: &[0x71; 32],
        binding,
        snapshot_digest: &[0x72; 32],
        snapshot,
    }
}

/// `dispatched()` plus the attached ContextPlan and the first Attempt.
fn executing() -> (Store, String) {
    let (mut store, epoch) = dispatched();
    executed(
        store
            .attach_run_context_plan(
                &cmd(&epoch, "cmd-t3a", &[21; 32], "run.context.attached"),
                &ContextPlanAttachment {
                    run_id: "run-1",
                    source_snapshot_digest: &[0x72; 32],
                    plan_digest: &[0x73; 32],
                    builder_version: "builder-1",
                    plan_canonical_json: "{\"plan\":1}",
                    plan_bytes_digest: &[0x73; 32],
                },
            )
            .expect("attachment"),
    );
    let key = "aa".repeat(32);
    executed(
        store
            .create_attempt(
                &cmd(&epoch, "cmd-t4", &[31; 32], "run.attempt.created"),
                &AttemptCreation {
                    run_id: "run-1",
                    attempt_id: "attempt-1",
                    launch_key: &key,
                    session_id: "acs-1",
                    credential_verifier: &[7; 32],
                    expected_run_status_revision: Revision::new(1),
                },
            )
            .expect("attempt"),
    );
    (store, epoch)
}

fn credential() -> AgentCredential<'static> {
    AgentCredential {
        attempt_id: "attempt-1",
        verifier: &[7; 32],
    }
}

fn seal_and_publish(store: &mut Store, epoch: &str) {
    let ws = store.workspaces.iter_mut().find(|w| w.id == "ws-1").unwrap();
    ws.phase = "Frozen".to_string();
    ws.revision = 4;
    let authority = SealAuthority {
        run_id: "run-1".to_string(),
        expected_run_revision: Revision::new(store.run_status[0].revision),
    };
    let seal = SealedChangeset {
        workspace_id: "ws-1",
        task_id: "task-1",
        fence_revision: Revision::new(4),
        authority: &authority,
        output_slot: "patch",
        repository: "repo://project",
        resolved_base: &base(),
        revision_state_digest: [0x81; 32],
        revision_state_json: "{\"entries\":[]}",
        artifact_digest: [0x82; 32],
        artifact_json: "{\"entries\":[{\"after\":{}}]}",
        members: vec![([0x83; 32], 5)],
        producer: Some(ProducerProvenance {
            attempt_id: "attempt-1",
        }),
    };
    let outcome = executed(
        store
            .commit_changeset_seal(&cmd(epoch, "cmd-seal", &[41; 32], "workspace.sealed"), &seal)
            .expect("seal publishes"),
    );
    assert!(!outcome.artifact_reused);
    assert_eq!(outcome.workspace_revision_id.len(), 32);
}

fn submission<'a>(
    candidate: &'a CandidateResult,
    request_id: &'a str,
    expected: Revision,
) -> CandidateSubmission<'a> {
    CandidateSubmission {
        credential: credential(),
        request_id,
        request_hash: &[0x91; 32],
        candidate,
        expected_task_revision: expected,
    }
}

fn candidate() -> CandidateResult {
    CandidateResult {
        task_id: "task-1".to_string(),
        run_id: "run-1".to_string(),
        outputs: vec![CandidateOutput {
            slot: "patch".to_string(),
            artifact: [0x82; 32],
        }],
        digest: [0x92; 32],
        canonical_json: "{\"candidate\":1}".to_string(),
    }
}

#[test]
fn materialization_creates_a_ready_task_and_activates_the_goal() {
    let (store, _epoch) = planned();
    let task = store.task("task-1").unwrap().expect("task");
    assert_eq!(task.phase, TaskPhase::Ready);
    assert_eq!(task.created_graph_revision, 1);
    assert_eq!(task.revision, Revision::new(1));
    let goal = store.goal("goal-1").unwrap().expect("goal");
    assert_eq!(goal.phase, GoalPhase::Active);
    assert_eq!(goal.revision, Revision::new(2));
    assert_eq!(store.task_graph("goal-1").unwrap().unwrap().revision, Revision::new(1));
    let op = store.planning_operation("op-1").unwrap().unwrap();
    assert_eq!(op.state.as_str(), "Materialized");
    assert_eq!(op.revision, Revision::new(2));
    assert_eq!(
        store.planning_record_proposal("op-1").unwrap(),
        Some(([0x63; 32], "{}".to_string()))
    );
    assert_eq!(
        store.task_spec_json(&[0x64; 32]).unwrap(),
        Some("{\"spec\":1}".to_string())
    );
    assert_eq!(
        store.goal_revision_json("goal-1", 1).unwrap(),
        Some("{\"title\":\"g\"}".to_string())
    );
}

#[test]
fn an_operation_materializes_at_most_once() {
    let (mut store, epoch) = planned();
    let outputs = Vec::new();
    let err = store
        .materialize_plan(
            &cmd(&epoch, "cmd-materialize-again", &[5; 32], "graph.patched"),
            "op-1",
            "task-2",
            &MaterializablePlan {
                goal_revision: 1,
                goal_content_digest: [0x61; 32],
                proposal_digest: [0x63; 32],
                spec_digest: [0x66; 32],
                spec_canonical_json: "{}",
                acceptance_digest: [0x65; 32],
                evaluator_registry_digest: [4; 32],
                configuration_activation_sequence: 1,
                outputs: &outputs,
            },
        )
        .expect_err("spent");
    match err {
        StoreError::RevisionConflict {
            table,
            id,
            expected,
            actual,
        } => {
            assert_eq!(table, "planning_operations");
            assert_eq!(id, "op-1");
            assert_eq!(expected, 2);
            assert_eq!(actual, Some(2));
        }
        other => panic!("unexpected error: {other:?}"),
    }
    assert!(store.task("task-2").unwrap().is_none());
}

#[test]
fn planning_against_a_missing_goal_revision_is_refused() {
    let mut store = Store::new();
    let epoch = store.restore_generation().to_string();
    let err = store
        .record_direct_planning(
            &cmd(&epoch, "cmd-plan", &[3; 32], "planning.recorded"),
            &PlanningDecision {
                operation_id: "op-1",
                goal_id: "goal-missing",
                goal_revision: 1,
                expected_graph_revision: 0,
                configuration_activation_sequence: 1,
                planning_input_digest: [0x62; 32],
                trigger_kind: "initial",
                planner_implementation: "direct",
                planner_version: "1",
            },
            &ProposalRecord {
                digest: [0x63; 32],
                canonical: "{}",
                normalization_provenance: "n",
            },
        )
        .expect_err("no such goal revision");
    assert!(matches!(err, StoreError::ConstraintViolated(_)));
    assert!(store.events.is_empty());
}

#[test]
fn run_intent_commits_the_run_holding_the_slot() {
    let (store, _epoch) = dispatched();
    assert_eq!(store.slot_holder().unwrap(), Some(("run-1".to_string(), "task-1".to_string())));
    let task = store.task("task-1").unwrap().unwrap();
    assert_eq!(task.phase, TaskPhase::Active);
    assert_eq!(task.active_run_id.as_deref(), Some("run-1"));
    let run = store.run("run-1").unwrap().expect("run");
    assert_eq!(run.binding_digest, [0x71; 32]);
    assert_eq!(run.context_source_snapshot_digest, [0x72; 32]);
    assert_eq!(store.goal_scheduling[0].last_served_sequence, Some(1));
    assert_eq!(store.scheduler_state().next_service_sequence, 2);
    assert_eq!(store.task_scheduling[0].eligible_since, None);
    assert_eq!(
        store.context_source_snapshot_json(&[0x72; 32]).unwrap(),
        Some("{\"snapshot\":1}".to_string())
    );
}

#[test]
fn a_second_run_intent_finds_the_slot_held() {
    let (mut store, epoch) = dispatched();
    let b = binding();
    let s = snapshot();
    let mut second = intent(&b, &s);
    second.run_id = "run-2";
    second.expected_scheduler_revision = Revision::new(2);
    let err = store
        .commit_run_intent(&cmd(&epoch, "cmd-t3-again", &[12; 32], "run.committed"), &second)
        .expect_err("refused");
    // The Task is no longer Ready, which is checked before capacity.
    assert!(matches!(err, StoreError::TaskNotDispatchable { phase: "Active", .. }));
    assert_eq!(store.runs.len(), 1);
}

#[test]
fn a_paused_scheduler_refuses_dispatch() {
    let (mut store, epoch) = planned();
    let scheduler_revision = store.scheduler_state().revision;
    executed(
        store
            .set_dispatch_mode(
                &cmd(&epoch, "cmd-pause", &[13; 32], "scheduler.paused"),
                pantheon_store::scheduling::DispatchMode::Paused,
                scheduler_revision,
            )
            .expect("pause"),
    );
    let b = binding();
    let s = snapshot();
    let mut i = intent(&b, &s);
    i.expected_scheduler_revision = Revision::new(2);
    let err = store
        .commit_run_intent(&cmd(&epoch, "cmd-t3", &[11; 32], "run.committed"), &i)
        .expect_err("paused");
    assert_eq!(err, StoreError::DispatchPaused);
}

#[test]
fn a_binding_from_another_revision_is_refused() {
    let (mut store, epoch) = planned();
    let mut b = binding();
    b.component_digests.routing = [0xEE; 32];
    let s = snapshot();
    let err = store
        .commit_run_intent(&cmd(&epoch, "cmd-t3", &[11; 32], "run.committed"), &intent(&b, &s))
        .expect_err("mixed revision");
    assert!(matches!(err, StoreError::InvariantViolated(_)));
}

#[test]
fn the_attempt_sees_only_its_own_lineage() {
    let (store, _epoch) = executing();
    let description = store.describe_agent_session(&credential()).expect("describes");
    assert_eq!(description.session_id, "acs-1");
    assert_eq!(description.attempt_id, "attempt-1");
    assert_eq!(description.run_id, "run-1");
    assert_eq!(description.task_id, "task-1");
    assert_eq!(description.task_phase, "Active");
    assert_eq!(description.task_revision, Revision::new(2));
    assert_eq!(description.outputs.len(), 1);
    assert_eq!(description.outputs[0].name, "patch");
    let wrong = store
        .describe_agent_session(&AgentCredential {
            attempt_id: "attempt-1",
            verifier: &[8; 32],
        })
        .expect_err("wrong bearer");
    assert!(matches!(wrong, StoreError::AgentControlUnauthorized { .. }));
}

#[test]
fn the_execution_view_reports_the_current_lineage() {
    let (store, _epoch) = executing();
    let view = store.run_execution_view("run-1").unwrap().expect("view");
    assert_eq!(view.phase, "Active");
    assert_eq!(view.context_plan_digest, Some([0x73; 32]));
    let lineage = view.attempt.expect("a nonterminal Attempt");
    assert_eq!(lineage.attempt.id, "attempt-1");
    assert_eq!(lineage.attempt.ordinal, 1);
    assert_eq!(lineage.session.id, "acs-1");
    assert_eq!(lineage.session.state, "ACTIVE");
    assert_eq!(lineage.session.credential_revision, 1);
    assert!(store.run_execution_view("run-missing").unwrap().is_none());
}

#[test]
fn a_different_plan_cannot_replace_an_attachment() {
    let (mut store, epoch) = executing();
    let err = store
        .attach_run_context_plan(
            &cmd(&epoch, "cmd-t3a-other", &[22; 32], "run.context.attached"),
            &ContextPlanAttachment {
                run_id: "run-1",
                source_snapshot_digest: &[0x72; 32],
                plan_digest: &[0x74; 32],
                builder_version: "builder-1",
                plan_canonical_json: "{\"plan\":2}",
                plan_bytes_digest: &[0x74; 32],
            },
        )
        .expect_err("already attached");
    match err {
        StoreError::RunContextPlanConflict {
            run_id,
            attached_plan,
            proposed_plan,
        } => {
            assert_eq!(run_id, "run-1");
            assert_eq!(attached_plan, "73".repeat(32));
            assert_eq!(proposed_plan, "74".repeat(32));
        }
        other => panic!("unexpected error: {other:?}"),
    }
    let same = store
        .attach_run_context_plan(
            &cmd(&epoch, "cmd-t3a-same", &[23; 32], "run.context.attached"),
            &ContextPlanAttachment {
                run_id: "run-1",
                source_snapshot_digest: &[0x72; 32],
                plan_digest: &[0x73; 32],
                builder_version: "builder-1",
                plan_canonical_json: "{\"plan\":1}",
                plan_bytes_digest: &[0x73; 32],
            },
        )
        .expect("the same attachment reconciles");
    assert!(same.was_executed());
    assert_eq!(store.run_context_plans.len(), 1);
}

#[test]
fn an_attachment_naming_another_snapshot_is_refused() {
    let (mut store, epoch) = dispatched();
    let err = store
        .attach_run_context_plan(
            &cmd(&epoch, "cmd-t3a", &[21; 32], "run.context.attached"),
            &ContextPlanAttachment {
                run_id: "run-1",
                source_snapshot_digest: &[0x99; 32],
                plan_digest: &[0x73; 32],
                builder_version: "builder-1",
                plan_canonical_json: "{}",
                plan_bytes_digest: &[0x73; 32],
            },
        )
        .expect_err("mismatch");
    assert!(matches!(err, StoreError::ContextSourceMismatch { .. }));
    let missing = store
        .attach_run_context_plan(
            &cmd(&epoch, "cmd-t3a-missing", &[24; 32], "run.context.attached"),
            &ContextPlanAttachment {
                run_id: "run-9",
                source_snapshot_digest: &[0x72; 32],
                plan_digest: &[0x73; 32],
                builder_version: "builder-1",
                plan_canonical_json: "{}",
                plan_bytes_digest: &[0x73; 32],
            },
        )
        .expect_err("no run");
    assert_eq!(
        missing,
        StoreError::RunNotFound {
            run_id: "run-9".to_string()
        }
    );
}

#[test]
fn a_sealed_changeset_is_published_once_and_converges() {
    let (mut store, epoch) = executing();
    seal_and_publish(&mut store, &epoch);
    assert_eq!(store.blobs.len(), 1);
    assert_eq!(store.artifacts.len(), 1);
    assert_eq!(store.production_records.len(), 1);
    let artifact = store.artifact(&[0x82; 32]).unwrap().expect("artifact");
    assert_eq!(artifact.kind, "code.changeset");
}

#[test]
fn a_seal_on_an_unfrozen_workspace_is_refused() {
    let (mut store, epoch) = executing();
    let authority = SealAuthority {
        run_id: "run-1".to_string(),
        expected_run_revision: Revision::new(store.run_status[0].revision),
    };
    let seal = SealedChangeset {
        workspace_id: "ws-1",
        task_id: "task-1",
        fence_revision: Revision::new(3),
        authority: &authority,
        output_slot: "patch",
        repository: "repo://project",
        resolved_base: &base(),
        revision_state_digest: [0x81; 32],
        revision_state_json: "{}",
        artifact_digest: [0x82; 32],
        artifact_json: "{}",
        members: vec![],
        producer: None,
    };
    let err = store
        .commit_changeset_seal(&cmd(&epoch, "cmd-seal", &[41; 32], "workspace.sealed"), &seal)
        .expect_err("not frozen");
    assert!(matches!(err, StoreError::SealAuthorityInvalid { .. }));
    assert!(store.artifacts.is_empty());
}

#[test]
fn submission_commits_the_candidate_and_a_replay_reconciles() {
    let (mut store, epoch) = executing();
    seal_and_publish(&mut store, &epoch);
    let candidate = candidate();
    let outcome = store
        .submit_candidate(&submission(&candidate, "req-1", Revision::new(2)))
        .expect("submission commits");
    assert!(!outcome.reconciled);
    assert_eq!(outcome.committed.candidate_digest, "92".repeat(32));
    assert_eq!(outcome.committed.task_revision, Revision::new(3));
    let task = store.task("task-1").unwrap().unwrap();
    assert_eq!(task.phase, TaskPhase::Evaluating);
    let replay = store
        .submit_candidate(&submission(&candidate, "req-1", Revision::new(2)))
        .expect("the replay reconciles");
    assert!(replay.reconciled);
    assert_eq!(replay.committed, outcome.committed);
    assert_eq!(store.candidates.len(), 1);

    let fresh = store
        .submit_candidate(&submission(&candidate, "req-2", Revision::new(3)))
        .expect_err("a new request id cannot mint authority");
    assert!(matches!(fresh, StoreError::SubmissionStaleAuthority { .. }));
}

#[test]
fn an_output_without_provenance_is_refused() {
    let (mut store, _epoch) = executing();
    // The Artifact exists but this Run never produced it.
    store.artifacts.push(pantheon_store::artifacts::ArtifactRecord {
        digest: [0x82; 32],
        kind: "code.changeset".to_string(),
        canonical_json: "{\"entries\":[],\"schemaVersion\":1}".to_string(),
    });
    let candidate = candidate();
    let err = store
        .submit_candidate(&submission(&candidate, "req-1", Revision::new(2)))
        .expect_err("foreign production");
    assert!(matches!(err, StoreError::CandidateProvenanceInvalid { .. }));
    assert!(store.candidates.is_empty());
}

#[test]
fn an_undeclared_output_is_refused() {
    let (mut store, epoch) = executing();
    seal_and_publish(&mut store, &epoch);
    let mut candidate = candidate();
    candidate.outputs[0].slot = "other".to_string();
    let err = store
        .submit_candidate(&submission(&candidate, "req-1", Revision::new(2)))
        .expect_err("undeclared");
    assert!(matches!(err, StoreError::CandidateInvalid { .. }));
}

#[test]
fn an_incomplete_artifact_is_refused() {
    let (mut store, epoch) = executing();
    seal_and_publish(&mut store, &epoch);
    let candidate = candidate();
    // The stored manifest names a payload the Artifact does not keep.
    store.artifacts[0].canonical_json = format!(
        "{{\"entries\":[{{\"after\":{{\"blob\":\"{}\",\"state\":\"present\"}},\"operation\":\"add\",\"path\":\"src/main.rs\"}}],\"schemaVersion\":1}}",
        "84".repeat(32)
    );
    let err = store
        .submit_candidate(&submission(&candidate, "req-1", Revision::new(2)))
        .expect_err("incomplete");
    assert!(matches!(err, StoreError::CandidateInvalid { .. }));
}

#[test]
fn a_stale_task_revision_conflicts() {
    let (mut store, epoch) = executing();
    seal_and_publish(&mut store, &epoch);
    let candidate = candidate();
    let err = store
        .submit_candidate(&submission(&candidate, "req-1", Revision::new(1)))
        .expect_err("stale");
    assert_eq!(
        err,
        StoreError::RevisionConflict {
            table: "tasks",
            id: "task-1".to_string(),
            expected: 1,
            actual: Some(2),
        }
    );
}

fn cancel(store: &mut Store, epoch: &str, id: &str) -> Result<Cancellation, StoreError> {
    store
        .cancel_goal(&cmd(epoch, id, &[0x11; 32], "goal.cancel.requested"), "goal-1")
        .map(executed)
}

/// `planned()` plus a Ready Workspace and an eligible scheduling row: the
/// state a scheduling cycle sees just before T3.
fn schedulable() -> (Store, String) {
    let (mut store, epoch) = planned();
    store.workspaces.push(WorkspaceRow {
        id: "ws-1".to_string(),
        task_id: "task-1".to_string(),
        phase: "Ready".to_string(),
        materialization: "Present".to_string(),
        revision: 3,
        resolved_base: base(),
    });
    store.task_scheduling.push(TaskSchedulingRow {
        task_id: "task-1".to_string(),
        eligible_since: Some(100),
        next_attempt_at: None,
        last_failure_code: None,
        last_failure_detail_json: None,
        revision: 1,
    });
    (store, epoch)
}

#[test]
fn cancelling_a_planning_goal_targets_cancelled_without_terminalizing_it() {
    let mut store = Store::new();
    let epoch = store.restore_generation().to_string();
    executed(
        store
            .create_goal(
                &cmd(&epoch, "create", &[9; 32], "goal.created"),
                "goal-1",
                &GoalSpec { digest: &[0x61; 32], canonical_json: "{}" },
            )
            .expect("goal commits"),
    );
    let cancellation = cancel(&mut store, &epoch, "cancel-1").expect("cancellation commits");
    assert!(!cancellation.already_targeted);
    assert_eq!(cancellation.tasks_fenced, 0);
    let goal = store.goal("goal-1").unwrap().expect("goal exists");
    assert_eq!(goal.phase, GoalPhase::Finalizing);
    assert!(goal.phase.is_nonterminal(), "cancellation must not terminalize the Goal itself");
    assert_eq!(goal.revision, Revision::new(2), "the fence is a revisioned CAS");
    assert_eq!(
        store.goal_targets,
        vec![GoalTargetRow { goal_id: "goal-1".to_string(), terminal_target: GoalPhase::Cancelled }]
    );
}

#[test]
fn cancellation_fences_every_nonterminal_task_in_the_same_transaction() {
    let (mut store, epoch) = planned();
    let before = store.task("task-1").unwrap().unwrap();
    assert_eq!(before.phase, TaskPhase::Ready);
    let cancellation = cancel(&mut store, &epoch, "cancel-1").expect("cancellation commits");
    assert_eq!(cancellation.tasks_fenced, 1);
    let after = store.task("task-1").unwrap().unwrap();
    assert_eq!(after.phase, TaskPhase::Finalizing);
    assert_eq!(after.revision, Revision::new(before.revision.get() + 1), "the Task fence is its own revisioned write");
    assert_eq!(
        store.task_targets,
        vec![TaskTargetRow {
            task_id: "task-1".to_string(),
            terminal_target: TaskPhase::Cancelled,
            terminal_reason_json: "{\"code\":\"goal-cancelled\"}".to_string(),
        }]
    );
}

#[test]
fn cancelling_an_already_cancelling_goal_changes_nothing_further() {
    let (mut store, epoch) = planned();
    cancel(&mut store, &epoch, "cancel-1").expect("first cancellation commits");
    let once = store.goal("goal-1").unwrap().unwrap();
    let task_once = store.task("task-1").unwrap().unwrap();
    // A different command id, so this is a genuine second execution rather
    // than a replay of the first.
    let second = cancel(&mut store, &epoch, "cancel-2").expect("second cancellation commits");
    assert!(second.already_targeted);
    assert_eq!(second.tasks_fenced, 0);
    let twice = store.goal("goal-1").unwrap().unwrap();
    let task_twice = store.task("task-1").unwrap().unwrap();
    assert_eq!(once.revision, twice.revision, "no second Goal revision burned");
    assert_eq!(task_once.revision, task_twice.revision);
}

#[test]
fn cancelling_a_finalizing_goal_retargets_it_to_cancelled_in_place() {
    for target in [GoalPhase::Succeeded, GoalPhase::Failed] {
        let (mut store, epoch) = planned();
        // The state a completion acceptance or a recovery policy leaves.
        store.goals[0].phase = GoalPhase::Finalizing;
        store.goals[0].revision = Revision::new(store.goals[0].revision.get() + 1);
        let finalized_at = store.goals[0].revision;
        store.goal_targets.push(GoalTargetRow { goal_id: "goal-1".to_string(), terminal_target: target });

        cancel(&mut store, &epoch, "cancel-1").expect("retargeting cancellation commits");

        let after = store.goal("goal-1").unwrap().unwrap();
        assert_eq!(after.phase, GoalPhase::Finalizing, "{target:?}");
        assert!(after.phase.is_nonterminal());
        assert_eq!(store.goal_targets.len(), 1);
        assert_eq!(store.goal_targets[0].terminal_target, GoalPhase::Cancelled, "{target:?}");
        assert_eq!(after.revision, Revision::new(finalized_at.get() + 1), "exactly one retargeting write");
        assert_eq!(store.task("task-1").unwrap().unwrap().phase, TaskPhase::Finalizing, "{target:?}");
    }
}

#[test]
fn a_terminal_goal_refuses_cancellation_and_history_stays_exactly_as_committed() {
    let (mut store, epoch) = planned();
    store.goals[0].phase = GoalPhase::Cancelled;
    store.goal_targets.push(GoalTargetRow { goal_id: "goal-1".to_string(), terminal_target: GoalPhase::Cancelled });
    let before = store.goal("goal-1").unwrap().unwrap();
    let events_before = store.events.len();

    let err = cancel(&mut store, &epoch, "cancel-1").expect_err("must be refused");
    match err {
        StoreError::GoalNotCancellable { goal_id, phase, terminal_target } => {
            assert_eq!(goal_id, "goal-1");
            assert_eq!(phase, "Cancelled");
            assert_eq!(terminal_target.as_deref(), Some("Cancelled"));
        },
        other => panic!("unexpected error: {other:?}"),
    }
    assert_eq!(store.goal("goal-1").unwrap().unwrap(), before, "a refusal rewrites nothing");
    assert_eq!(store.events.len(), events_before);
}

#[test]
fn a_refused_cancellation_consumes_no_command_identity() {
    let (mut store, epoch) = planned();
    store.goals[0].phase = GoalPhase::Cancelled;
    store.goal_targets.push(GoalTargetRow { goal_id: "goal-1".to_string(), terminal_target: GoalPhase::Cancelled });
    cancel(&mut store, &epoch, "reused").expect_err("terminal goals never reopen");
    // The same identity is free, so a later legitimate command may take it.
    let goal = store
        .create_goal(
            &cmd(&epoch, "reused", &[0x12; 32], "goal.created"),
            "goal-2",
            &GoalSpec { digest: &[0x66; 32], canonical_json: "{}" },
        )
        .expect("identity still usable");
    assert!(goal.was_executed());
}

#[test]
fn cancelling_an_unknown_goal_is_an_invariant_violation() {
    let mut store = Store::new();
    let epoch = store.restore_generation().to_string();
    let err = cancel(&mut store, &epoch, "cancel-1").expect_err("no such goal");
    assert!(matches!(err, StoreError::InvariantViolated(_)));
    assert!(store.commands.is_empty());
}

#[test]
fn the_goal_snapshot_reports_the_stored_phase_rather_than_assuming_planning() {
    let (mut store, epoch) = planned();
    cancel(&mut store, &epoch, "cancel").expect("cancellation commits");
    let snapshot = store.goal_snapshot().expect("snapshot");
    assert_eq!(snapshot.goals[0].phase, GoalPhase::Finalizing);
    assert_eq!(snapshot.goals[0].revision, store.goal("goal-1").unwrap().unwrap().revision);
    assert_eq!(snapshot.cursor, store.journal_head());
}

#[test]
fn the_goal_snapshot_lists_goals_in_id_order() {
    let mut store = Store::new();
    let epoch = store.restore_generation().to_string();
    for (id, hash) in [("goal-b", [1u8; 32]), ("goal-a", [2u8; 32]), ("goal-c", [3u8; 32])] {
        executed(
            store
                .create_goal(&cmd(&epoch, id, &hash, "goal.created"), id, &GoalSpec { digest: &hash, canonical_json: "{}" })
                .expect("goal commits"),
        );
    }
    let snapshot = store.goal_snapshot().expect("snapshot");
    let ids: Vec<&str> = snapshot.goals.iter().map(|g| g.id.as_str()).collect();
    assert_eq!(ids, vec!["goal-a", "goal-b", "goal-c"]);
    assert_eq!(snapshot.cursor.sequence, 3);
}

#[test]
fn a_ready_task_with_a_present_workspace_is_a_candidate() {
    let (store, _epoch) = schedulable();
    let snap = store.scheduling_snapshot_at(200);
    assert_eq!(snap.now, 200);
    assert_eq!(snap.state, store.scheduler_state());
    assert_eq!(snap.candidates.len(), 1);
    let c = &snap.candidates[0];
    assert_eq!(c.task_id, "task-1");
    assert_eq!(c.goal_id, "goal-1");
    assert_eq!(c.spec_digest, [0x64; 32]);
    assert_eq!(c.eligible_since, 100);
    assert_eq!(c.task_revision, Revision::new(1));
    assert_eq!(c.goal_current_revision, 1);
    assert_eq!(c.goal_row_revision, Revision::new(2));
    assert_eq!(c.graph_revision, 1);
    assert_eq!(c.workspace_id, "ws-1");
    assert_eq!(c.workspace_resolved_base, base());
    assert_eq!(c.workspace_revision, Revision::new(3));
    assert_eq!(c.scheduling_revision, Revision::new(1));
    let s = c.schedulable();
    assert_eq!((s.task_id.as_str(), s.goal_id.as_str(), s.eligible_since), ("task-1", "goal-1", 100));
    assert!(store.scheduling_snapshot().expect("snapshot").candidates.len() <= 1);
}

#[test]
fn a_task_in_backoff_is_not_a_candidate_until_the_backoff_passes() {
    let (mut store, _epoch) = schedulable();
    store.task_scheduling[0].next_attempt_at = Some(300);
    assert!(store.scheduling_snapshot_at(299).candidates.is_empty());
    assert_eq!(store.scheduling_snapshot_at(300).candidates.len(), 1);
}

#[test]
fn a_task_without_a_present_workspace_or_eligibility_is_not_a_candidate() {
    let (mut store, _epoch) = schedulable();
    store.workspaces[0].materialization = "Absent".to_string();
    assert!(store.scheduling_snapshot_at(200).candidates.is_empty());
    let (mut store, _epoch) = schedulable();
    store.task_scheduling[0].eligible_since = None;
    assert!(store.scheduling_snapshot_at(200).candidates.is_empty());
}

#[test]
fn a_dispatched_task_is_no_longer_a_candidate() {
    let (store, _epoch) = dispatched();
    assert!(store.scheduling_snapshot_at(200).candidates.is_empty());
}

#[test]
fn fairness_rows_are_listed_in_goal_id_order() {
    let (mut store, _epoch) = schedulable();
    for id in ["goal-z", "goal-m", "goal-a"] {
        store.goal_scheduling.push(GoalSchedulingRow {
            goal_id: id.to_string(),
            last_served_sequence: Some(1),
            revision: Revision::new(1),
        });
    }
    let snap = store.scheduling_snapshot_at(200);
    let ids: Vec<&str> = snap.goals.iter().map(|g| g.goal_id.as_str()).collect();
    assert_eq!(ids, vec!["goal-a", "goal-m", "goal-z"]);
}

#[test]
fn a_cancelled_goal_has_no_candidates_and_admits_no_run() {
    let (mut store, epoch) = schedulable();
    assert_eq!(store.scheduling_snapshot_at(200).candidates.len(), 1);
    cancel(&mut store, &epoch, "cancel-1").expect("cancellation commits");
    assert!(store.scheduling_snapshot_at(200).candidates.is_empty());
    let b = binding();
    let s = snapshot();
    let err = store
        .commit_run_intent(&cmd(&epoch, "cmd-t3", &[11; 32], "run.committed"), &intent(&b, &s))
        .expect_err("refused");
    assert!(matches!(err, StoreError::TaskNotDispatchable { phase: "Finalizing", .. }));
}

#[test]
fn stored_components_and_bindings_read_back_by_digest() {
    let (store, _epoch) = dispatched();
    assert_eq!(
        store.configuration_component_json(&[2; 32]).unwrap(),
        Some(("routing".to_string(), "{\"routing\":2}".to_string()))
    );
    assert_eq!(store.configuration_component_json(&[0x99; 32]).unwrap(), None);
    assert_eq!(store.binding_canonical_json(&[0x71; 32]).unwrap(), Some("{\"binding\":1}".to_string()));
    assert_eq!(store.binding_canonical_json(&[0x72; 32]).unwrap(), None);
    assert_eq!(
        store.workspace_readiness("run-1").unwrap(),
        Some(("Ready".to_string(), "Present".to_string()))
    );
    assert_eq!(store.workspace_readiness("run-2").unwrap(), None);
}

#[test]
fn watching_from_the_snapshot_cursor_sees_exactly_the_later_events() {
    let (mut store, epoch) = planned();
    let snapshot = store.goal_snapshot().expect("snapshot");
    assert_eq!(store.events_after(&snapshot.cursor, -1).expect("current"), vec![]);
    cancel(&mut store, &epoch, "cancel-1").expect("cancellation commits");
    let later = store.events_after(&snapshot.cursor, -1).expect("current");
    assert_eq!(later.len(), 1);
    assert_eq!(later[0].event_type, "goal.cancel.requested");
    assert_eq!(later[0].sequence, snapshot.cursor.sequence + 1);
}

const RUN: &str = "run-1";
const FROZEN_SNAPSHOT: [u8; 32] = [0x72; 32];

/// A minimal plan claim over the frozen snapshot: its digest and canonical
/// form.
fn plan_claim(value: u8) -> ([u8; 32], String) {
    ([0x90 + value; 32], format!("{{\"builder\":\"builder-1\",\"fixture\":{value}}}"))
}

fn attachment<'a>(
    run_id: &'a str,
    snapshot_digest: &'a [u8; 32],
    plan_digest: &'a [u8; 32],
    plan_json: &'a str,
) -> ContextPlanAttachment<'a> {
    ContextPlanAttachment {
        run_id,
        source_snapshot_digest: snapshot_digest,
        plan_digest,
        builder_version: "builder-1",
        plan_canonical_json: plan_json,
        plan_bytes_digest: plan_digest,
    }
}

fn hex(digest: &[u8; 32]) -> String {
    digest.iter().map(|b| format!("{b:02x}")).collect()
}

fn attachment_events(store: &Store) -> usize {
    store.events.iter().filter(|e| e.event_type == "run.context.attached").count()
}

#[test]
fn t3a_attaches_once_reconciles_the_same_plan_and_appends_one_event() {
    let (mut store, epoch) = dispatched();
    let (plan_digest, plan_json) = plan_claim(1);

    let first = store
        .attach_run_context_plan(
            &cmd(&epoch, "t3a-1", &[21; 32], "run.context.attached"),
            &attachment(RUN, &FROZEN_SNAPSHOT, &plan_digest, &plan_json),
        )
        .expect("first attach commits");
    let Committed::Executed { value, .. } = first else {
        panic!("a fresh attachment executes, got {first:?}");
    };
    assert_eq!(value, AttachedContextPlan { run_id: RUN.to_string(), context_plan_digest: plan_digest });

    // Same command identity: durable replay, no second Event, no mutation.
    let replayed = store
        .attach_run_context_plan(
            &cmd(&epoch, "t3a-1", &[21; 32], "run.context.attached"),
            &attachment(RUN, &FROZEN_SNAPSHOT, &plan_digest, &plan_json),
        )
        .expect("replay reconciles");
    assert!(matches!(replayed, Committed::Replayed { .. }));
    assert_eq!(attachment_events(&store), 1, "command replay appends nothing");

    // A different command identity with the same content reconciles against
    // the existing attachment; the attempt itself is audited history.
    let reconciled = store
        .attach_run_context_plan(
            &cmd(&epoch, "t3a-2", &[22; 32], "run.context.attached"),
            &attachment(RUN, &FROZEN_SNAPSHOT, &plan_digest, &plan_json),
        )
        .expect("same-plan retry reconciles");
    let Committed::Executed { value, .. } = reconciled else {
        panic!("a fresh reconcile attempt executes, got {reconciled:?}");
    };
    assert_eq!(value.context_plan_digest, plan_digest);

    // Exactly one attachment row naming exactly this plan.
    let record = store.run_context_plan(RUN).expect("read").expect("attached");
    assert_eq!(
        record,
        RunContextPlanRecord {
            run_id: RUN.to_string(),
            context_source_snapshot_digest: FROZEN_SNAPSHOT,
            context_plan_digest: plan_digest,
        }
    );
    assert_eq!(attachment_events(&store), 2, "the original attachment and the audited reconcile attempt");
}

#[test]
fn a_second_different_plan_cannot_replace_the_attached_plan() {
    let (mut store, epoch) = dispatched();
    let (first_digest, first_json) = plan_claim(1);
    let (second_digest, second_json) = plan_claim(2);

    store
        .attach_run_context_plan(
            &cmd(&epoch, "t3a-1", &[21; 32], "run.context.attached"),
            &attachment(RUN, &FROZEN_SNAPSHOT, &first_digest, &first_json),
        )
        .expect("first attach commits");

    let err = store
        .attach_run_context_plan(
            &cmd(&epoch, "t3a-2", &[22; 32], "run.context.attached"),
            &attachment(RUN, &FROZEN_SNAPSHOT, &second_digest, &second_json),
        )
        .expect_err("a second different plan must fail closed");
    match err {
        StoreError::RunContextPlanConflict { ref run_id, ref attached_plan, ref proposed_plan } => {
            assert_eq!(run_id, RUN);
            assert_eq!(*attached_plan, hex(&first_digest));
            assert_eq!(*proposed_plan, hex(&second_digest));
        },
        other => panic!("expected RunContextPlanConflict, got {other:?}"),
    }

    // The original attachment stands untouched.
    let record = store.run_context_plan(RUN).expect("read").expect("attached");
    assert_eq!(record.context_plan_digest, first_digest);
}

#[test]
fn a_plan_built_from_another_snapshot_cannot_attach() {
    let (mut store, epoch) = dispatched();
    let (plan_digest, plan_json) = plan_claim(1);
    let other_snapshot = [0x5a; 32];

    let err = store
        .attach_run_context_plan(
            &cmd(&epoch, "t3a-1", &[21; 32], "run.context.attached"),
            &attachment(RUN, &other_snapshot, &plan_digest, &plan_json),
        )
        .expect_err("wrong-source attachment must fail closed");
    match err {
        StoreError::ContextSourceMismatch { ref run_id, ref frozen, ref proposed } => {
            assert_eq!(run_id, RUN);
            assert_eq!(*frozen, hex(&FROZEN_SNAPSHOT));
            assert_eq!(*proposed, hex(&other_snapshot));
        },
        other => panic!("expected ContextSourceMismatch, got {other:?}"),
    }
    assert!(store.run_context_plan(RUN).expect("read").is_none());
}

#[test]
fn an_existing_plan_digest_with_different_bytes_is_a_content_conflict() {
    let (mut store, epoch) = dispatched();
    let (plan_digest, plan_json) = plan_claim(1);

    // Plant a corrupted row under the honest digest: same identity, other
    // bytes.
    let corrupt_json = plan_json.replace('1', "2");
    assert_ne!(corrupt_json, plan_json, "the planted row must be genuinely divergent");
    store.context_plans.push(ContextPlanRow {
        digest: plan_digest,
        source_snapshot_digest: FROZEN_SNAPSHOT,
        builder_version: "builder-1".to_string(),
        canonical_json: corrupt_json,
    });

    let err = store
        .attach_run_context_plan(
            &cmd(&epoch, "t3a-2", &[22; 32], "run.context.attached"),
            &attachment(RUN, &FROZEN_SNAPSHOT, &plan_digest, &plan_json),
        )
        .expect_err("divergent stored bytes under one digest must fail closed");
    assert!(matches!(err, StoreError::ContentIdentityConflict { .. }), "expected ContentIdentityConflict, got {err:?}");
    assert!(store.run_context_plan(RUN).expect("read").is_none());
}

#[test]
fn plan_bytes_must_hash_to_their_claimed_digest_before_anything_is_written() {
    let (mut store, epoch) = dispatched();
    let (real_digest, real_json) = plan_claim(1);
    let claimed = [0x5b; 32];

    let err = store
        .attach_run_context_plan(
            &cmd(&epoch, "t3a-1", &[21; 32], "run.context.attached"),
            &ContextPlanAttachment {
                run_id: RUN,
                source_snapshot_digest: &FROZEN_SNAPSHOT,
                plan_digest: &claimed,
                builder_version: "builder-1",
                plan_canonical_json: &real_json,
                plan_bytes_digest: &real_digest,
            },
        )
        .expect_err("bytes must produce their claimed digest");
    assert!(matches!(err, StoreError::ContentIdentityConflict { .. }), "expected ContentIdentityConflict, got {err:?}");
    assert!(store.run_context_plan(RUN).expect("read").is_none());
    assert!(store.context_plans.is_empty(), "nothing was written");
}

#[test]
fn attaching_to_a_missing_run_fails_closed() {
    let (mut store, epoch) = dispatched();
    let (plan_digest, plan_json) = plan_claim(1);

    let err = store
        .attach_run_context_plan(
            &cmd(&epoch, "t3a-1", &[21; 32], "run.context.attached"),
            &attachment("run-absent", &FROZEN_SNAPSHOT, &plan_digest, &plan_json),
        )
        .expect_err("an unknown Run cannot be prepared");
    assert!(
        matches!(err, StoreError::RunNotFound { ref run_id } if run_id == "run-absent"),
        "expected RunNotFound, got {err:?}"
    );
}

#[test]
fn preparation_leaves_no_attempt_surface_behind() {
    // Context readiness is not execution: preparation creates none of the
    // later lifecycle state.
    let (mut store, epoch) = dispatched();
    let (plan_digest, plan_json) = plan_claim(1);

    store
        .attach_run_context_plan(
            &cmd(&epoch, "t3a-1", &[21; 32], "run.context.attached"),
            &attachment(RUN, &FROZEN_SNAPSHOT, &plan_digest, &plan_json),
        )
        .expect("attachment commits");

    assert!(store.attempts.is_empty());
    assert!(store.attempt_status.is_empty());
    assert!(store.sessions.is_empty());
    let status = store.run_status.iter().find(|s| s.run_id == RUN).expect("run status");
    assert_eq!(status.phase.as_str(), "Active", "the Run stays Active with nothing to launch");
}

/// `dispatched()` with the one-time ContextPlan attached when `attach_plan`:
/// the Run is LaunchReady exactly then.
fn launch_world(attach_plan: bool) -> (Store, String) {
    let (mut store, epoch) = dispatched();
    if attach_plan {
        let (plan_digest, plan_json) = plan_claim(1);
        store
            .attach_run_context_plan(
                &cmd(&epoch, "cmd-t3a", &[21; 32], "run.context.attached"),
                &attachment(RUN, &FROZEN_SNAPSHOT, &plan_digest, &plan_json),
            )
            .expect("attachment commits");
    }
    (store, epoch)
}

fn launch_key(seed: u8) -> String {
    format!("{seed:02x}").repeat(32)
}

fn run_status_revision(store: &Store) -> Revision {
    let view = store.run_execution_view(RUN).expect("read execution view").expect("the Run exists");
    assert_eq!(view.phase, "Active");
    view.revision
}

#[allow(clippy::too_many_arguments)]
fn t4(
    store: &mut Store,
    command_id: &str,
    request_hash: [u8; 32],
    attempt_id: &str,
    key_seed: u8,
    session_id: &str,
    verifier: &[u8; 32],
) -> Result<Committed<AttemptCreated>, StoreError> {
    let revision = run_status_revision(store);
    let epoch = store.restore_generation().to_string();
    let key = launch_key(key_seed);
    store.create_attempt(
        &cmd(&epoch, command_id, &request_hash, "run.attempt.created"),
        &AttemptCreation {
            run_id: RUN,
            attempt_id,
            launch_key: &key,
            session_id,
            credential_verifier: verifier,
            expected_run_status_revision: revision,
        },
    )
}

fn create_first_attempt(store: &mut Store) -> Committed<AttemptCreated> {
    match t4(store, "t4-run1-ord1", [0x31; 32], "attempt-1", 0xAA, "acs-1", &[7; 32]).expect("T4 commits") {
        executed @ Committed::Executed { .. } => executed,
        other => panic!("a fresh T4 executes, got {other:?}"),
    }
}

fn lineage(store: &Store) -> AttemptLineageView {
    store
        .run_execution_view(RUN)
        .expect("read view")
        .expect("Run exists")
        .attempt
        .expect("a nonterminal Attempt exists")
}

fn session_of<'a>(store: &'a Store, attempt_id: &str) -> &'a SessionRow {
    store.sessions.iter().find(|s| s.attempt_id == attempt_id).expect("session row")
}

fn status_of<'a>(store: &'a Store, attempt_id: &str) -> &'a AttemptStatusRow {
    store.attempt_status.iter().find(|s| s.attempt_id == attempt_id).expect("status row")
}

#[test]
fn a_failed_t4_leaves_no_partial_lineage() {
    let (mut store, _epoch) = launch_world(true);
    create_first_attempt(&mut store);
    let revision_after_first = run_status_revision(&store);
    let events_after_first = store.events.len();

    // Definitively end lineage 1 so the one-nonterminal check passes; the
    // session identity collision below is what must abort this creation.
    store.mark_launch_contact(RUN, "attempt-1", "epoch-R", Revision::new(1), 1).expect("contact marker commits");
    store
        .record_execution_observation("attempt-1", Revision::new(2), ObservationUpdate::Terminal(Observation::Exited))
        .expect("terminal observation commits");

    let error = t4(&mut store, "t4-second", [0x42; 32], "attempt-2", 0xDD, "acs-1", &[9; 32])
        .expect_err("a duplicate session identity fails the whole creation");
    assert!(matches!(error, StoreError::ConstraintViolated(_)), "the session key refuses duplication: {error:?}");

    // Nothing partial survived.
    assert_eq!(store.attempts.len(), 1);
    let view = store.run_execution_view(RUN).expect("read").unwrap();
    assert_eq!(view.current_attempt_id.as_deref(), Some("attempt-1"));
    assert_eq!(view.attempt, None);
    assert_eq!(view.revision, revision_after_first);
    assert!(store.attempt_status.iter().all(|s| s.attempt_id != "attempt-2"));
    // Two internal Events (contact marker, terminalization) landed since the
    // first lineage committed; the failed creation appended none.
    assert_eq!(store.events.len(), events_after_first + 2);

    // And the Run still accepts a well-formed retry afterwards.
    let retry = t4(&mut store, "t4-second-retry", [0x43; 32], "attempt-2", 0xEE, "acs-2", &[9; 32])
        .expect("the corrected retry commits");
    assert!(retry.was_executed(), "the retry is genuinely new work, not a replay");
}

#[test]
fn attempt_creation_requires_the_attached_context_plan() {
    let (mut store, _epoch) = launch_world(false);
    let error = t4(&mut store, "t4-unready", [0x51; 32], "attempt-1", 0xBB, "acs-1", &[3; 32])
        .expect_err("an Attempt before LaunchReady is refused");
    assert!(matches!(error, StoreError::AttemptNotLaunchReady { .. }), "typed refusal, got {error:?}");
    assert!(store.attempts.is_empty(), "nothing was written");
    let view = store.run_execution_view(RUN).expect("read").unwrap();
    assert_eq!(view.current_attempt_id, None);
    assert!(view.context_plan_digest.is_none());
}

#[test]
fn one_nonterminal_attempt_per_run_is_enforced_by_controller_and_database() {
    let (mut store, _epoch) = launch_world(true);
    create_first_attempt(&mut store);
    let error = t4(&mut store, "t4-run1-ord2", [0x52; 32], "attempt-2", 0xCC, "acs-2", &[4; 32])
        .expect_err("a second concurrent lineage is refused");
    assert!(matches!(error, StoreError::AttemptNotLaunchReady { .. }));
    assert_eq!(store.attempts.len(), 1);
}

#[test]
fn retry_after_terminal_attempt_creates_a_new_distinct_lineage() {
    let (mut store, _epoch) = launch_world(true);
    create_first_attempt(&mut store);

    store.mark_launch_contact(RUN, "attempt-1", "epoch-A", Revision::new(1), 1).expect("contact marker commits");
    store
        .record_execution_observation("attempt-1", Revision::new(2), ObservationUpdate::Terminal(Observation::Exited))
        .expect("terminal observation commits");

    let second = t4(&mut store, "t4-run1-ord2", [0x61; 32], "attempt-2", 0xDD, "acs-2", &[5; 32])
        .expect("the retry commits");
    let Committed::Executed { value, .. } = second else {
        panic!("a retry after terminal is genuinely new work");
    };
    assert_eq!(value.ordinal, 2, "the ordinal is strictly Run-local history");

    let view = store.run_execution_view(RUN).expect("read").unwrap();
    assert_eq!(view.current_attempt_id.as_deref(), Some("attempt-2"));
    let live = view.attempt.expect("the new lineage is current");
    assert_eq!(live.attempt.launch_key, launch_key(0xDD));
    assert_eq!(live.session.id, "acs-2");
    assert_ne!(live.session.id, "acs-1", "a fresh Attempt never inherits the prior session");

    // The old lineage remains history, terminal with its own frozen facts.
    let old = status_of(&store, "attempt-1");
    assert!(old.terminal);
    assert_eq!(old.observed_execution.as_str(), "EXITED");
}

#[test]
fn rekey_rotates_only_the_session_credential_while_not_contacted() {
    let (mut store, _epoch) = launch_world(true);
    create_first_attempt(&mut store);
    let generation = store.restore_generation().to_string();
    let events_before = store.events.len();

    let revision =
        store.rekey_agent_control_session("attempt-1", &[0xE1; 32], 1).expect("the pre-contact rekey rotates in place");
    assert_eq!(revision, 2);

    let live = lineage(&store);
    assert_eq!(live.session.credential_revision, 2);
    assert_eq!(live.session.restore_generation, generation);
    assert_eq!(live.attempt.launch_key, launch_key(0xAA), "LaunchKey immutable");
    assert_eq!(live.attempt.id, "attempt-1", "same Attempt identity");
    assert_eq!(live.launch_contact_state, LaunchContactState::NotContacted);

    // Non-secret provenance Event appended; the verifier replaced.
    assert_eq!(store.events.len(), events_before + 1);
    assert_eq!(session_of(&store, "attempt-1").credential_hash, vec![0xE1; 32]);
}

#[test]
fn rekey_is_frozen_once_contact_may_have_occurred() {
    let (mut store, _epoch) = launch_world(true);
    create_first_attempt(&mut store);
    store.mark_launch_contact(RUN, "attempt-1", "epoch-B", Revision::new(1), 1).expect("contact marker commits");

    let error =
        store.rekey_agent_control_session("attempt-1", &[0xE2; 32], 1).expect_err("a contacted session never rekeys");
    assert!(matches!(error, StoreError::AgentControlRekeyForbidden { .. }), "typed freeze refusal, got {error:?}");
    let session = session_of(&store, "attempt-1");
    assert_eq!(session.credential_hash, vec![7; 32], "the verifier is untouched");
    assert_eq!(session.credential_revision, 1, "the credential revision is frozen");
}

#[test]
fn rekey_refuses_an_old_generation_session() {
    let (mut store, _epoch) = launch_world(true);
    create_first_attempt(&mut store);

    // The disaster-restore authority fence: the installation's
    // RestoreGeneration rotates underneath the existing session.
    store.restore_generation = format!("{:032x}", 0xABCDE);

    let error = store
        .rekey_agent_control_session("attempt-1", &[0xE3; 32], 1)
        .expect_err("an old-generation session cannot promote itself by rekeying");
    assert!(matches!(error, StoreError::AgentControlRekeyForbidden { .. }));
    assert_ne!(
        session_of(&store, "attempt-1").restore_generation,
        format!("{:032x}", 0xABCDE),
        "the session's own generation is never rewritten"
    );
}

#[test]
fn rekey_refuses_a_stale_expected_revision() {
    let (mut store, _epoch) = launch_world(true);
    create_first_attempt(&mut store);
    store.rekey_agent_control_session("attempt-1", &[0xE4; 32], 1).expect("first rekey");

    let error = store
        .rekey_agent_control_session("attempt-1", &[0xE5; 32], 1)
        .expect_err("stale expectation loses deterministically");
    assert!(matches!(error, StoreError::RevisionConflict { .. }));
}

#[test]
fn the_contact_marker_commits_monotonically_and_binds_the_current_revision() {
    let (mut store, _epoch) = launch_world(true);
    create_first_attempt(&mut store);
    let events_before = store.events.len();

    let error = store
        .mark_launch_contact(RUN, "attempt-1", "epoch-C", Revision::new(1), 2)
        .expect_err("the boundary binds the exact current credential revision");
    assert!(matches!(error, StoreError::LaunchContactStaleAuthority { .. }));

    store.mark_launch_contact(RUN, "attempt-1", "epoch-C", Revision::new(1), 1).expect("contact marker commits");
    let status = status_of(&store, "attempt-1");
    assert_eq!(status.launch_contact_state.as_str(), "CONTACT_MAY_HAVE_OCCURRED");
    assert!(status.launch_contact_initiated_at.is_some());
    assert_eq!(status.launch_contact_epoch.as_deref(), Some("epoch-C"));
    assert_eq!(store.events.len(), events_before + 1);

    // Lost-response retry: finding the boundary already crossed reconciles.
    store
        .mark_launch_contact(RUN, "attempt-1", "epoch-D", Revision::new(2), 1)
        .expect("the retry reconciles without duplicating");
    assert_eq!(
        status_of(&store, "attempt-1").launch_contact_epoch.as_deref(),
        Some("epoch-C"),
        "the first crossing owns the provenance"
    );
}

#[test]
fn terminalization_requires_durable_contact_and_revokes_the_session() {
    let (mut store, _epoch) = launch_world(true);
    create_first_attempt(&mut store);

    let error = store
        .record_execution_observation("attempt-1", Revision::new(1), ObservationUpdate::Terminal(Observation::Exited))
        .expect_err("terminal without contact is impossible");
    assert!(matches!(error, StoreError::InvariantViolated(_)));

    store.mark_launch_contact(RUN, "attempt-1", "epoch-E", Revision::new(1), 1).expect("contact marker commits");
    store
        .record_execution_observation("attempt-1", Revision::new(2), ObservationUpdate::Observe(Observation::Running))
        .expect("running observation commits");

    let live = lineage(&store);
    assert_eq!(live.observed_execution, Observation::Running);
    assert!(!live.terminal);

    let events_before = store.events.len();
    store
        .record_execution_observation("attempt-1", Revision::new(3), ObservationUpdate::Terminal(Observation::Exited))
        .expect("terminal observation commits");
    assert_eq!(store.events.len(), events_before + 1);

    let status = status_of(&store, "attempt-1");
    assert!(status.terminal);
    assert!(status.finished_at.is_some());
    assert_eq!(session_of(&store, "attempt-1").state.as_str(), "REVOKED", "worker authority dies with the Attempt");
}

#[test]
fn unknown_observation_keeps_the_attempt_nonterminal_and_unreplaced() {
    let (mut store, _epoch) = launch_world(true);
    create_first_attempt(&mut store);
    store.mark_launch_contact(RUN, "attempt-1", "epoch-F", Revision::new(1), 1).expect("contact marker commits");

    store
        .record_execution_observation("attempt-1", Revision::new(2), ObservationUpdate::Observe(Observation::Unknown))
        .expect("UNKNOWN records factually");

    let live = lineage(&store);
    assert_eq!(live.observed_execution, Observation::Unknown);
    assert!(!live.terminal, "UNKNOWN never terminalizes");
    assert_eq!(store.nonterminal_run_inventory().len(), 1, "the Run stays responsible");
    assert_eq!(store.attempts.len(), 1, "no replacement lineage exists");

    let error = t4(&mut store, "t4-run1-replace", [0x71; 32], "attempt-2", 0xEE, "acs-2", &[6; 32])
        .expect_err("UNKNOWN authorizes no replacement");
    assert!(matches!(error, StoreError::AttemptNotLaunchReady { .. }));
}

#[test]
fn concluding_the_run_records_why_and_releases_the_slot() {
    let (mut store, _epoch) = launch_world(true);
    let revision_before = run_status_revision(&store);

    store.conclude_run(RUN, "Failed", revision_before).expect("the Run concludes");

    let status = store.run_status.iter().find(|s| s.run_id == RUN).expect("status row");
    assert_eq!(status.phase.as_str(), "Failed");
    assert_eq!(status.terminal_target.map(|t| t.as_str()), Some("Failed"), "the why is durable");
    assert!(!status.active_slot, "the single global slot is released");

    assert!(store.nonterminal_run_inventory().is_empty(), "a concluded Run leaves the nonterminal inventory");

    let error = store.conclude_run(RUN, "Failed", revision_before).expect_err("the revision moved");
    assert!(matches!(error, StoreError::RevisionConflict { .. }));
}

#[test]
fn view_and_inventory_agree_about_the_same_world() {
    let (mut store, _epoch) = launch_world(true);
    create_first_attempt(&mut store);

    let entries: Vec<RunInventoryEntry> = store.nonterminal_run_inventory();
    assert_eq!(entries.len(), 1);
    assert_eq!(entries[0].run_id, RUN);
    assert_eq!(entries[0].phase, "Active");
    assert_eq!(entries[0].current_attempt_id.as_deref(), Some("attempt-1"));

    let view = store.run_execution_view(RUN).expect("read").unwrap();
    assert_eq!(view.run_id, RUN);
    assert_eq!(view.phase, entries[0].phase);
    assert_eq!(view.current_attempt_id, entries[0].current_attempt_id);
    assert!(view.attempt.is_some());

    assert!(store.run_execution_view("run-absent").expect("read").is_none());
}

// ---- Publication of sealed changesets -----------------------------------------

/// `executing()` with the Workspace frozen; returns the fence revision.
fn frozen_workspace() -> (Store, String, Revision) {
    let (mut store, epoch) = executing();
    let ws = store.workspaces.iter_mut().find(|w| w.id == "ws-1").unwrap();
    ws.phase = "Frozen".to_string();
    ws.revision = 4;
    (store, epoch, Revision::new(4))
}

fn run_authority(store: &Store) -> SealAuthority {
    SealAuthority {
        run_id: "run-1".to_string(),
        expected_run_revision: Revision::new(store.run_status[0].revision),
    }
}

/// A well-formed seal claim for the fixture Workspace.
fn seal_claim<'a>(
    fence: Revision,
    authority: &'a SealAuthority,
    resolved_base: &'a str,
    artifact_json: &'a str,
) -> SealedChangeset<'a> {
    SealedChangeset {
        workspace_id: "ws-1",
        task_id: "task-1",
        fence_revision: fence,
        authority,
        output_slot: "patch",
        repository: "repo://project",
        resolved_base,
        revision_state_digest: [0xa1; 32],
        revision_state_json: "{\"entries\":[],\"schemaVersion\":1}",
        artifact_digest: [0xa2; 32],
        artifact_json,
        members: vec![([0xa3; 32], 5)],
        producer: None,
    }
}

fn commit_seal(
    store: &mut Store,
    epoch: &str,
    id: &str,
    seal: &SealedChangeset,
) -> Result<Committed<SealOutcome>, StoreError> {
    store.commit_changeset_seal(&cmd(epoch, id, &[13; 32], "workspace.sealed"), seal)
}

#[test]
fn a_seal_commits_every_immutable_row_in_one_transaction() {
    let (mut store, epoch, fence) = frozen_workspace();
    let authority = run_authority(&store);
    let committed = commit_seal(&mut store, &epoch, "cmd-seal", &seal_claim(fence, &authority, &base(), "{}"))
        .expect("seals");
    assert!(committed.was_executed());
    let value = executed(committed);
    assert!(!value.artifact_reused);
    let artifact = store.artifact(&[0xa2; 32]).expect("read").expect("artifact row exists");
    assert_eq!(artifact.kind, "code.changeset");
    assert_eq!(
        store.blobs.iter().filter(|b| b.size == 5).count(),
        1,
        "the published member is a durable Blob row"
    );
}

#[test]
fn replaying_the_seal_command_does_not_duplicate_anything() {
    let (mut store, epoch, fence) = frozen_workspace();
    let authority = run_authority(&store);
    let resolved = base();
    let seal = seal_claim(fence, &authority, &resolved, "{}");
    let first = commit_seal(&mut store, &epoch, "cmd-seal", &seal).expect("first");
    let second = commit_seal(&mut store, &epoch, "cmd-seal", &seal).expect("second");
    assert!(first.was_executed() && !second.was_executed(), "replay");
    let artifact = store.artifact(&[0xa2; 32]).expect("read").expect("exists");
    assert_eq!(artifact.canonical_json, "{}");
    assert_eq!(store.artifacts.len(), 1, "one content identity, however many retries");
}

#[test]
fn a_different_command_capturing_identical_state_converges_on_prior_content() {
    let (mut store, epoch, fence) = frozen_workspace();
    let authority = run_authority(&store);
    let resolved = base();
    let seal = seal_claim(fence, &authority, &resolved, "{}");
    let first = commit_seal(&mut store, &epoch, "cmd-a", &seal).expect("first seals");
    let second = commit_seal(&mut store, &epoch, "cmd-b", &seal).expect("second seals");
    assert!(first.was_executed() && second.was_executed());
    let first = executed(first);
    let second = executed(second);
    assert!(second.artifact_reused, "converged on prior content");
    assert_eq!(first.workspace_revision_id, second.workspace_revision_id);
    assert_eq!(store.workspace_revisions.len(), 1);
}

#[test]
fn a_stale_fence_writes_nothing() {
    let (mut store, epoch, fence) = frozen_workspace();
    let authority = run_authority(&store);
    let resolved = base();
    let stale = seal_claim(Revision::new(fence.get() + 5), &authority, &resolved, "{}");
    let err = commit_seal(&mut store, &epoch, "cmd-seal", &stale).expect_err("stale fence must fail");
    assert!(matches!(err, StoreError::SealAuthorityInvalid { .. }), "{err:?}");
    assert!(store.artifact(&[0xa2; 32]).expect("read").is_none());
    assert!(store.blobs.is_empty());
}

#[test]
fn an_owner_or_task_authority_mismatch_fails_closed() {
    let (mut store, epoch, fence) = frozen_workspace();
    let authority = run_authority(&store);
    let resolved = base();
    let mut wrong_task = seal_claim(fence, &authority, &resolved, "{}");
    wrong_task.task_id = "task-other";
    let err = commit_seal(&mut store, &epoch, "cmd-wrong-owner", &wrong_task).expect_err("owner mismatch");
    assert!(matches!(err, StoreError::SealAuthorityInvalid { .. }), "{err:?}");

    // Cancelling the Goal fences its Tasks toward Cancelled, so the Task is
    // no longer executing under the Run and the seal loses its authority.
    cancel(&mut store, &epoch, "cmd-cancel").expect("cancels");
    let authority = run_authority(&store);
    let err = commit_seal(&mut store, &epoch, "cmd-post-cancel", &seal_claim(fence, &authority, &resolved, "{}"))
        .expect_err("authority is gone");
    assert!(matches!(err, StoreError::SealAuthorityInvalid { .. }), "{err:?}");
    assert!(store.artifact(&[0xa2; 32]).expect("read").is_none());
}

#[test]
fn content_that_collides_with_different_stored_content_is_refused() {
    let (mut store, epoch, fence) = frozen_workspace();
    let authority = run_authority(&store);
    let resolved = base();
    commit_seal(&mut store, &epoch, "cmd-first", &seal_claim(fence, &authority, &resolved, "{}")).expect("first seals");

    // Same manifest digest, different manifest: never overwritten.
    let err = commit_seal(
        &mut store,
        &epoch,
        "cmd-second",
        &seal_claim(fence, &authority, &resolved, "{\"tampered\":true}"),
    )
    .expect_err("must refuse");
    assert!(matches!(err, StoreError::ContentIdentityConflict { .. }), "{err:?}");

    // Same blob digest, different size: the same rule at the payload layer.
    let mut tampered = seal_claim(fence, &authority, &resolved, "{}");
    tampered.members = vec![([0xa3; 32], 6)];
    let err = commit_seal(&mut store, &epoch, "cmd-third", &tampered).expect_err("must refuse");
    assert!(matches!(err, StoreError::ContentIdentityConflict { .. }), "{err:?}");
    assert_eq!(store.blobs.len(), 1, "the original blob is untouched");
}

#[test]
fn a_failed_publication_leaves_no_partial_rows_behind() {
    let (mut store, epoch, fence) = frozen_workspace();
    let authority = run_authority(&store);
    let resolved = base();
    let mut earlier = seal_claim(fence, &authority, &resolved, "{}");
    earlier.members = vec![([0xb1; 32], 1)];
    commit_seal(&mut store, &epoch, "cmd-partial", &earlier).expect("partial seals");

    let mut conflicting = seal_claim(fence, &authority, &resolved, "{\"other\":1}");
    conflicting.members = vec![([0xb2; 32], 2)];
    assert!(
        commit_seal(&mut store, &epoch, "cmd-conflict", &conflicting).is_err(),
        "the tampered manifest is refused"
    );

    assert_eq!(store.workspace_revisions.len(), 1, "exactly the row the successful seal committed");
    assert_eq!(
        store.blobs.iter().filter(|b| b.size == 2).count(),
        0,
        "the blob of the failed publication must not survive it"
    );
    assert_eq!(store.blobs.len(), 1);
    assert_eq!(store.artifacts.len(), 1);
}

#[test]
fn every_member_of_the_manifest_is_recorded_for_reachability() {
    let (mut store, epoch, fence) = frozen_workspace();
    let authority = run_authority(&store);
    let resolved = base();
    let mut seal = seal_claim(fence, &authority, &resolved, "{}");
    seal.members = vec![([0xc1; 32], 1), ([0xc2; 32], 2)];
    let committed = commit_seal(&mut store, &epoch, "cmd-members", &seal).expect("seals");
    assert!(committed.was_executed());
    assert_eq!(store.artifact_members.len(), 2, "every required payload member must be reachable");
}

// ---- Agent Control --------------------------------------------------------------

const ATTEMPT: &str = "attempt-1";
const SLOT: &str = "patch";

fn bearer(verifier: &[u8; 32]) -> AgentCredential<'_> {
    AgentCredential {
        attempt_id: ATTEMPT,
        verifier,
    }
}

fn request_rows(store: &Store) -> usize {
    store.agent_requests.len()
}

fn task_revision_of(store: &Store) -> Revision {
    store.task("task-1").expect("read").expect("task exists").revision
}

/// Ends the first Attempt's lineage: contact, then a terminal observation,
/// which revokes its session.
fn terminalize_first_attempt(store: &mut Store) {
    store
        .mark_launch_contact(RUN, ATTEMPT, "epoch-T", Revision::new(1), 1)
        .expect("contact marker commits");
    store
        .record_execution_observation(ATTEMPT, Revision::new(2), ObservationUpdate::Terminal(Observation::Exited))
        .expect("terminalizes");
}

fn candidate_with(slots: &[(&str, [u8; 32])]) -> CandidateResult {
    CandidateResult {
        task_id: "task-1".to_string(),
        run_id: RUN.to_string(),
        outputs: slots
            .iter()
            .map(|(slot, artifact)| CandidateOutput {
                slot: slot.to_string(),
                artifact: *artifact,
            })
            .collect(),
        digest: [0x92; 32],
        canonical_json: "{\"candidate\":1}".to_string(),
    }
}

#[allow(clippy::too_many_arguments)]
fn submit_as(
    store: &mut Store,
    attempt_id: &str,
    verifier: &[u8; 32],
    request_id: &str,
    request_hash: [u8; 32],
    candidate: &CandidateResult,
    expected: Revision,
) -> Result<pantheon_store::agent_control::SubmissionOutcome, StoreError> {
    store.submit_candidate(&CandidateSubmission {
        credential: AgentCredential {
            attempt_id,
            verifier,
        },
        request_id,
        request_hash: &request_hash,
        candidate,
        expected_task_revision: expected,
    })
}

/// Submits the sealed fixture Artifact on the fixture slot as Attempt 1.
fn submit_sealed(
    store: &mut Store,
    request_id: &str,
    request_hash: [u8; 32],
) -> Result<pantheon_store::agent_control::SubmissionOutcome, StoreError> {
    let candidate = candidate_with(&[(SLOT, [0x82; 32])]);
    let expected = task_revision_of(store);
    submit_as(store, ATTEMPT, &[7; 32], request_id, request_hash, &candidate, expected)
}

#[test]
fn describe_exposes_only_the_authenticated_lineage() {
    let (store, _epoch) = executing();
    let description = store.describe_agent_session(&bearer(&[7; 32])).expect("authorized describe");
    assert_eq!(description.attempt_id, ATTEMPT);
    assert_eq!(description.run_id, RUN);
    assert_eq!(description.task_id, "task-1");
    assert_eq!(description.task_phase, "Active");
    assert_eq!(description.outputs.len(), 1);
    assert_eq!(description.outputs[0].name, SLOT);
    assert_eq!(description.outputs[0].kind, "code.changeset");
    assert!(description.outputs[0].required);
}

#[test]
fn a_wrong_bearer_is_refused_and_creates_no_request_row() {
    let (mut store, _epoch) = executing();
    let error = store.describe_agent_session(&bearer(&[8; 32])).expect_err("wrong bearer fails closed");
    assert!(matches!(error, StoreError::AgentControlUnauthorized { .. }), "got {error:?}");
    let opened = store.open_agent_request(bearer(&[8; 32]), AgentOperation::SealArtifact, "req-1", &[9; 32]);
    assert!(matches!(opened, Err(StoreError::AgentControlUnauthorized { .. })));
    assert_eq!(request_rows(&store), 0);
}

#[test]
fn an_old_generation_session_is_fenced_even_with_its_own_bearer() {
    let (mut store, _epoch) = executing();
    store.restore_generation = "f".repeat(32);
    let error = store.describe_agent_session(&bearer(&[7; 32])).expect_err("old-generation sessions are fenced");
    assert!(matches!(error, StoreError::AgentControlUnauthorized { .. }));
    let opened = store.open_agent_request(bearer(&[7; 32]), AgentOperation::SealArtifact, "req-restore", &[9; 32]);
    assert!(opened.is_err());
    assert_eq!(request_rows(&store), 0);
}

#[test]
fn a_revoked_session_fails_closed_everywhere() {
    let (mut store, _epoch) = executing();
    terminalize_first_attempt(&mut store);
    assert!(store.describe_agent_session(&bearer(&[7; 32])).is_err());
    let opened = store.open_agent_request(bearer(&[7; 32]), AgentOperation::SubmitResult, "req-late", &[5; 32]);
    assert!(opened.is_err());
    assert_eq!(request_rows(&store), 0);
}

#[test]
fn open_records_started_before_any_effect_and_reconciles_the_same_hash() {
    let (mut store, _epoch) = executing();
    let opened = store
        .open_agent_request(bearer(&[7; 32]), AgentOperation::SealArtifact, "req-seal", &[7; 32])
        .expect("opens");
    assert!(matches!(opened, AgentRequestOpened::Started));
    let again = store
        .open_agent_request(bearer(&[7; 32]), AgentOperation::SealArtifact, "req-seal", &[7; 32])
        .expect("reconciles");
    assert_eq!(again, AgentRequestOpened::Reconciled(AgentRequestState::Started));
    assert_eq!(request_rows(&store), 1);

    let conflicting = store.open_agent_request(bearer(&[7; 32]), AgentOperation::SealArtifact, "req-seal", &[8; 32]);
    assert!(matches!(conflicting, Err(StoreError::AgentRequestConflict { .. })));
    assert_eq!(request_rows(&store), 1);
}

#[test]
fn t6_commits_candidate_outputs_lifecycle_request_and_event_atomically() {
    let (mut store, epoch) = executing();
    seal_and_publish(&mut store, &epoch);
    let events_before = store.events.len();
    let outcome = submit_sealed(&mut store, "req-submit", [3; 32]).expect("submission commits");
    assert!(!outcome.reconciled);
    assert_eq!(outcome.committed.candidate_digest, "92".repeat(32));

    let run = store.run_status.iter().find(|r| r.run_id == RUN).expect("run status");
    assert_eq!(run.phase.as_str(), "Finalizing");
    assert_eq!(run.terminal_target.map(|t| t.as_str()), Some("Completed"));
    // Finalizing keeps occupying the single execution slot.
    assert!(run.active_slot);
    assert_eq!(store.task("task-1").unwrap().unwrap().phase, TaskPhase::Evaluating);

    assert_eq!(store.candidates.len(), 1);
    assert_eq!(store.candidates[0].canonical_json, "{\"candidate\":1}");
    assert_eq!(store.candidate_outputs.len(), 1);
    assert_eq!(store.candidate_outputs[0].artifact_digest, [0x82; 32]);

    let request = store
        .agent_requests
        .iter()
        .find(|r| r.attempt_id == ATTEMPT && r.request_id == "req-submit")
        .expect("request row");
    assert_eq!(request.state, "SUCCEEDED");
    assert_eq!(request.result_ref.as_deref(), Some("92".repeat(32).as_str()));
    assert_eq!(store.events.len(), events_before + 1, "exactly one Event commits with the mutation");
}

#[test]
fn an_exact_replay_reconciles_the_same_candidate() {
    let (mut store, epoch) = executing();
    seal_and_publish(&mut store, &epoch);
    let candidate = candidate_with(&[(SLOT, [0x82; 32])]);
    let expected = task_revision_of(&store);
    let first = submit_as(&mut store, ATTEMPT, &[7; 32], "req-submit", [3; 32], &candidate, expected)
        .expect("first submission commits");
    let candidates_before = store.candidates.len();
    let events_before = store.events.len();
    let second = submit_as(&mut store, ATTEMPT, &[7; 32], "req-submit", [3; 32], &candidate, expected)
        .expect("replay reconciles");
    assert!(second.reconciled);
    assert_eq!(second.committed.candidate_digest, first.committed.candidate_digest);
    assert_eq!(store.candidates.len(), candidates_before);
    assert_eq!(store.events.len(), events_before, "a reconciled replay appends no Event");
}

#[test]
fn the_same_request_identity_with_different_semantics_fails_closed_in_t6() {
    let (mut store, epoch) = executing();
    seal_and_publish(&mut store, &epoch);
    submit_sealed(&mut store, "req-submit", [3; 32]).expect("first submission commits");
    let error = submit_sealed(&mut store, "req-submit", [4; 32])
        .expect_err("identity reuse with different semantics fails closed");
    assert!(matches!(error, StoreError::AgentRequestConflict { .. }), "{error:?}");
    assert_eq!(store.candidates.len(), 1);
}

#[test]
fn a_new_request_id_after_a_committed_submission_cannot_mint_authority() {
    let (mut store, epoch) = executing();
    seal_and_publish(&mut store, &epoch);
    submit_sealed(&mut store, "req-a", [3; 32]).expect("first commits");
    let error = submit_sealed(&mut store, "req-b", [4; 32]).expect_err("the Run left Active with its Candidate");
    assert!(matches!(error, StoreError::SubmissionStaleAuthority { .. }), "{error:?}");
    assert_eq!(store.candidates.len(), 1);
}

#[test]
fn a_second_different_submission_conflicts_deterministically() {
    let (mut store, epoch) = executing();
    seal_and_publish(&mut store, &epoch);
    submit_sealed(&mut store, "req-a", [3; 32]).expect("first commits");
    let mut other = candidate_with(&[(SLOT, [0x82; 32])]);
    other.digest = [0x93; 32];
    other.canonical_json = "{\"candidate\":2}".to_string();
    let expected = task_revision_of(&store);
    let error = submit_as(&mut store, ATTEMPT, &[7; 32], "req-b", [4; 32], &other, expected)
        .expect_err("the Run already carries its one Candidate");
    assert!(matches!(error, StoreError::SubmissionStaleAuthority { .. }), "{error:?}");
    assert_eq!(store.candidates.len(), 1);
}

#[test]
fn a_stale_task_revision_conflicts_without_partial_writes() {
    let (mut store, epoch) = executing();
    seal_and_publish(&mut store, &epoch);
    let candidate = candidate_with(&[(SLOT, [0x82; 32])]);
    let stale = Revision::new(task_revision_of(&store).get() + 7);
    let error = submit_as(&mut store, ATTEMPT, &[7; 32], "req-stale", [6; 32], &candidate, stale)
        .expect_err("the CAS expectation cannot be met");
    assert!(matches!(error, StoreError::RevisionConflict { .. }), "{error:?}");
    assert!(store.candidates.is_empty());
    assert_eq!(request_rows(&store), 0);
    let run = store.run_status.iter().find(|r| r.run_id == RUN).expect("run row");
    assert_eq!(run.phase.as_str(), "Active");
    assert_eq!(run.terminal_target, None);
}

#[test]
fn a_stale_revision_conflicts_before_content_is_examined() {
    let (mut store, _epoch) = executing();
    // Doubly invalid: the revision is stale and the Artifact does not exist;
    // the revision gate decides first.
    let candidate = candidate_with(&[(SLOT, [0xee; 32])]);
    let stale = Revision::new(task_revision_of(&store).get() + 7);
    let error = submit_as(&mut store, ATTEMPT, &[7; 32], "req-stale-order", [6; 32], &candidate, stale)
        .expect_err("the stale view loses first");
    assert!(matches!(error, StoreError::RevisionConflict { .. }), "revision gate first, got {error:?}");
    assert!(store.candidates.is_empty());
}

#[test]
fn a_terminal_attempt_cannot_submit_and_late_requests_cannot_act() {
    let (mut store, epoch) = executing();
    terminalize_first_attempt(&mut store);
    seal_and_publish(&mut store, &epoch);
    let error = submit_sealed(&mut store, "req-late", [5; 32]).expect_err("a terminal Attempt has no authority left");
    assert!(matches!(error, StoreError::AgentControlUnauthorized { .. }));
    assert_eq!(request_rows(&store), 0);

    // A replacement Attempt becomes current; the superseded session still
    // cannot act on the newer lineage.
    t4(&mut store, "t4-replacement", [0x44; 32], "attempt-2", 0xBC, "acs-2", &[8; 32]).expect("replacement launches");
    let error = submit_sealed(&mut store, "req-stale-session", [5; 32])
        .expect_err("the superseded session cannot act on the current Attempt");
    assert!(matches!(error, StoreError::AgentControlUnauthorized { .. }));

    // And the current Attempt's own submission proceeds.
    let candidate = candidate_with(&[(SLOT, [0x82; 32])]);
    let expected = task_revision_of(&store);
    let outcome = submit_as(&mut store, "attempt-2", &[8; 32], "req-current", [5; 32], &candidate, expected)
        .expect("the current Attempt submits");
    assert_eq!(outcome.committed.candidate_digest, "92".repeat(32));
}

#[test]
fn cancellation_committed_first_defeats_submission() {
    let (mut store, epoch) = executing();
    seal_and_publish(&mut store, &epoch);
    // The cancellation fence, committed first: the Task leaves Active with a
    // durable target.
    let task = store.tasks.iter_mut().find(|t| t.id == "task-1").unwrap();
    task.phase = TaskPhase::Finalizing;
    task.revision = Revision::new(task.revision.get() + 1);
    let revision_after_fence = task.revision.get();
    store.task_targets.push(TaskTargetRow {
        task_id: "task-1".to_string(),
        terminal_target: TaskPhase::Cancelled,
        terminal_reason_json: "{\"code\":\"goal-cancelled\"}".to_string(),
    });
    let candidate = candidate_with(&[(SLOT, [0x82; 32])]);
    let error = submit_as(
        &mut store,
        ATTEMPT,
        &[7; 32],
        "req-race",
        [8; 32],
        &candidate,
        Revision::new(revision_after_fence - 1),
    )
    .expect_err("cancellation won the race");
    assert!(matches!(error, StoreError::SubmissionStaleAuthority { .. }));
    assert!(store.candidates.is_empty());
    assert_eq!(request_rows(&store), 0);
}

#[test]
fn submission_committed_first_keeps_the_candidate_as_history() {
    let (mut store, epoch) = executing();
    seal_and_publish(&mut store, &epoch);
    submit_sealed(&mut store, "req-first", [3; 32]).expect("submission wins the race");
    let expected_at_submission = Revision::new(task_revision_of(&store).get() - 1);

    // A later cancellation fence leaves the Candidate and the Run alone.
    let task = store.tasks.iter_mut().find(|t| t.id == "task-1").unwrap();
    task.phase = TaskPhase::Finalizing;
    task.revision = Revision::new(task.revision.get() + 1);
    assert_eq!(store.candidates.len(), 1);
    let run = store.run_status.iter().find(|r| r.run_id == RUN).expect("run row");
    assert_eq!(run.phase.as_str(), "Finalizing");
    assert_eq!(run.terminal_target.map(|t| t.as_str()), Some("Completed"));

    // A replay of the winning request still reconciles to it.
    let candidate = candidate_with(&[(SLOT, [0x82; 32])]);
    let replay = submit_as(
        &mut store,
        ATTEMPT,
        &[7; 32],
        "req-first",
        [3; 32],
        &candidate,
        expected_at_submission,
    )
    .expect("replay reconciles");
    assert!(replay.reconciled);
    assert_eq!(replay.committed.candidate_digest, "92".repeat(32));
}

#[test]
fn missing_required_output_refuses_clean() {
    let (mut store, _epoch) = executing();
    let candidate = candidate_with(&[]);
    let expected = task_revision_of(&store);
    let error = submit_as(&mut store, ATTEMPT, &[7; 32], "req-empty", [6; 32], &candidate, expected)
        .expect_err("the required output is missing");
    assert!(matches!(error, StoreError::CandidateInvalid { .. }), "{error:?}");
    assert!(store.candidates.is_empty());
    assert_eq!(request_rows(&store), 0);
}

#[test]
fn undeclared_output_refuses_clean() {
    let (mut store, epoch) = executing();
    seal_and_publish(&mut store, &epoch);
    let candidate = candidate_with(&[(SLOT, [0x82; 32]), ("bonus", [0x82; 32])]);
    let expected = task_revision_of(&store);
    let error = submit_as(&mut store, ATTEMPT, &[7; 32], "req-extra", [6; 32], &candidate, expected)
        .expect_err("no such slot exists in the specification");
    assert!(matches!(error, StoreError::CandidateInvalid { .. }), "{error:?}");
    assert!(store.candidates.is_empty());
}

#[test]
fn wrong_artifact_kind_refuses() {
    let (mut store, epoch) = executing();
    seal_and_publish(&mut store, &epoch);
    store.artifacts[0].kind = "research.report".to_string();
    let error = submit_sealed(&mut store, "req-kind", [6; 32]).expect_err("the kind ceiling refuses the artifact");
    assert!(matches!(error, StoreError::CandidateInvalid { .. }), "{error:?}");
    assert!(store.candidates.is_empty());
}

#[test]
fn foreign_production_cannot_be_submitted_even_though_the_content_exists() {
    let (mut store, epoch) = executing();
    seal_and_publish(&mut store, &epoch);
    // The Run's ProductionRecord names other content for this slot.
    store.artifacts.push(pantheon_store::artifacts::ArtifactRecord {
        digest: [0xf0; 32],
        kind: "code.changeset".to_string(),
        canonical_json: "{\"entries\":[],\"schemaVersion\":1}".to_string(),
    });
    store.production_records[0].artifact_digest = [0xf0; 32];
    let error = submit_sealed(&mut store, "req-foreign", [6; 32])
        .expect_err("content without this lineage's provenance cannot be submitted");
    assert!(matches!(error, StoreError::CandidateProvenanceInvalid { .. }), "{error:?}");
    assert!(store.candidates.is_empty());
    assert_eq!(request_rows(&store), 0);
}

#[test]
fn incomplete_artifact_refuses() {
    let (mut store, epoch) = executing();
    seal_and_publish(&mut store, &epoch);
    // The manifest references payload that no member of the Artifact keeps.
    store.artifacts[0].canonical_json = format!(
        "{{\"entries\":[{{\"after\":{{\"blob\":\"{}\",\"state\":\"present\"}},\"operation\":\"add\",\"path\":\"src/main.rs\"}}],\"schemaVersion\":1,\"variant\":\"1\"}}",
        "d0".repeat(32)
    );
    let candidate = candidate_with(&[(SLOT, [0x82; 32])]);
    let expected = task_revision_of(&store);
    let error = submit_as(&mut store, ATTEMPT, &[7; 32], "req-incomplete", [6; 32], &candidate, expected)
        .expect_err("the manifest references payload no member retains");
    assert!(matches!(error, StoreError::CandidateInvalid { .. }), "{error:?}");
    assert!(store.candidates.is_empty());
}

#[test]
fn a_retrying_seal_never_overwrites_recorded_provenance() {
    let (mut store, epoch) = executing();
    seal_and_publish(&mut store, &epoch);
    store.artifacts.push(pantheon_store::artifacts::ArtifactRecord {
        digest: [0xf0; 32],
        kind: "code.changeset".to_string(),
        canonical_json: "{}".to_string(),
    });
    store.production_records[0].artifact_digest = [0xf0; 32];

    // A retry of the seal over the same frozen state recomputes the same
    // content claim and must refuse rather than overwrite the provenance.
    let authority = run_authority(&store);
    let resolved = base();
    let manifest = "{\"entries\":[],\"schemaVersion\":1,\"variant\":\"1\"}";
    let seal = SealedChangeset {
        workspace_id: "ws-1",
        task_id: "task-1",
        fence_revision: Revision::new(4),
        authority: &authority,
        output_slot: SLOT,
        repository: "repo://project",
        resolved_base: &resolved,
        revision_state_digest: [0xe1; 32],
        revision_state_json: manifest,
        artifact_digest: [0xe2; 32],
        artifact_json: manifest,
        members: Vec::new(),
        producer: Some(ProducerProvenance { attempt_id: ATTEMPT }),
    };
    let error = commit_seal(&mut store, &epoch, "cmd-reseal", &seal).expect_err("drifted provenance must be refused");
    assert!(matches!(error, StoreError::ContentIdentityConflict { .. }), "{error:?}");
}

#[test]
fn complete_refuses_after_midflight_revocation_and_leaves_the_row_inert() {
    let (mut store, _epoch) = executing();
    let opened = store
        .open_agent_request(bearer(&[7; 32]), AgentOperation::SealArtifact, "req-mid", &[7; 32])
        .expect("opens before capture");
    assert!(matches!(opened, AgentRequestOpened::Started));
    terminalize_first_attempt(&mut store);
    let error = store.complete_agent_request(bearer(&[7; 32]), "req-mid", "artifact://never-committed");
    assert!(matches!(error, Err(StoreError::AgentControlUnauthorized { .. })));
    let row = store
        .agent_requests
        .iter()
        .find(|r| r.attempt_id == ATTEMPT && r.request_id == "req-mid")
        .expect("row present");
    assert_eq!(row.state, "STARTED");
}

// ---- Reads and bookkeeping -------------------------------------------------------

#[test]
fn a_refused_request_is_recorded_once_and_then_reconciled() {
    let (mut store, _epoch) = executing();
    store
        .open_agent_request(bearer(&[7; 32]), AgentOperation::SealArtifact, "req-fail", &[7; 32])
        .expect("opens");
    store.fail_agent_request(bearer(&[7; 32]), "req-fail", "capture-failed").expect("records the refusal");
    let row = store.agent_requests.iter().find(|r| r.request_id == "req-fail").expect("row");
    assert_eq!(row.state, "FAILED");
    assert_eq!(row.problem_code.as_deref(), Some("capture-failed"));

    // A refusal is final: a second outcome changes nothing.
    store.fail_agent_request(bearer(&[7; 32]), "req-fail", "other").expect("no-op");
    assert!(store.complete_agent_request(bearer(&[7; 32]), "req-fail", "late").is_err(), "success cannot overwrite a refusal");
    let row = store.agent_requests.iter().find(|r| r.request_id == "req-fail").expect("row");
    assert_eq!(row.state, "FAILED");
    assert_eq!(row.problem_code.as_deref(), Some("capture-failed"));

    let again = store
        .open_agent_request(bearer(&[7; 32]), AgentOperation::SealArtifact, "req-fail", &[7; 32])
        .expect("reconciles");
    assert_eq!(
        again,
        AgentRequestOpened::Reconciled(AgentRequestState::Failed {
            problem_code: "capture-failed".to_string()
        })
    );

    let refused = store.fail_agent_request(bearer(&[8; 32]), "req-fail", "x");
    assert!(matches!(refused, Err(StoreError::AgentControlUnauthorized { .. })));
}

#[test]
fn a_declared_output_reads_as_name_and_kind() {
    let output = DeclaredOutput {
        name: "patch".to_string(),
        kind: "code.changeset".to_string(),
        required: true,
    };
    assert_eq!(output.to_text(), "patch (code.changeset)");
}

#[test]
fn the_goal_revision_content_is_read_back_exactly() {
    let (store, _epoch) = planned();
    let content = store.goal_revision_content("goal-1", 1).expect("read").expect("revision 1 exists");
    assert_eq!(content.goal_id, "goal-1");
    assert_eq!(content.revision, 1);
    assert_eq!(content.content_digest, [0x61; 32]);
    assert_eq!(content.canonical_json, "{\"title\":\"g\"}");
    assert!(store.goal_revision_content("goal-1", 2).expect("read").is_none());
    assert!(store.goal_revision_content("goal-2", 1).expect("read").is_none());
}

#[test]
fn a_historical_revision_keeps_its_agents_component() {
    let (store, _epoch) = planned();
    assert_eq!(
        store.revision_agents_component_json(1).expect("read").as_deref(),
        Some("{\"agents\":1}")
    );
    assert_eq!(store.revision_agents_component_json(2).expect("read"), None);
}

#[test]
fn attempt_history_counts_every_lineage_of_the_run() {
    let (mut store, _epoch) = executing();
    assert_eq!(store.attempt_history_count(RUN), 1);
    assert_eq!(store.attempt_status_revision(ATTEMPT).expect("status"), Revision::new(1));
    assert!(matches!(store.attempt_status_revision("attempt-9"), Err(StoreError::Storage(_))));
    terminalize_first_attempt(&mut store);
    assert_eq!(store.attempt_status_revision(ATTEMPT).expect("status"), Revision::new(3));
    t4(&mut store, "t4-second-lineage", [0x45; 32], "attempt-2", 0xBD, "acs-2", &[8; 32]).expect("second lineage");
    assert_eq!(store.attempt_history_count(RUN), 2);
    assert_eq!(store.attempt_history_count("run-9"), 0);
}

#[test]
fn scheduling_backoff_is_recorded_under_cas_without_touching_eligibility() {
    let (mut store, _epoch) = schedulable();
    let next = store
        .record_scheduling_backoff("task-1", Revision::new(1), "no-capacity", "{\"reason\":1}", 500)
        .expect("backoff recorded");
    assert_eq!(next, Revision::new(2));
    let row = &store.task_scheduling[0];
    assert_eq!(row.eligible_since, Some(100));
    assert_eq!(row.next_attempt_at, Some(500));
    assert_eq!(row.last_failure_code.as_deref(), Some("no-capacity"));
    assert_eq!(row.last_failure_detail_json.as_deref(), Some("{\"reason\":1}"));
    assert_eq!(row.revision, 2);

    let stale = store
        .record_scheduling_backoff("task-1", Revision::new(1), "again", "{}", 600)
        .expect_err("stale revision");
    assert_eq!(
        stale,
        StoreError::RevisionConflict {
            table: "task_scheduling_state",
            id: "task-1".to_string(),
            expected: 1,
            actual: Some(2),
        }
    );
    let missing = store
        .record_scheduling_backoff("task-9", Revision::new(1), "x", "{}", 1)
        .expect_err("no row");
    assert!(matches!(missing, StoreError::RevisionConflict { actual: None, .. }));
}

#[test]
fn two_intents_from_one_snapshot_commit_at_most_once() {
    let (mut store, epoch) = dispatched();
    let b = binding();
    let s = snapshot();
    // Built from the same observation as the committed one: same scheduler
    // revision, another Run identity.
    let mut second = intent(&b, &s);
    second.run_id = "run-2";
    let err = store
        .commit_run_intent(&cmd(&epoch, "cmd-t3-twin", &[13; 32], "run.committed"), &second)
        .expect_err("the scheduler revision moved");
    assert_eq!(
        err,
        StoreError::RevisionConflict {
            table: "scheduler_state",
            id: "singleton".to_string(),
            expected: 1,
            actual: Some(2),
        }
    );
    assert_eq!(store.runs.len(), 1);
}
