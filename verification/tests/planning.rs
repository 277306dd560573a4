use pantheon_store::agent_control::DeclaredOutput;
use pantheon_store::command::{Command, Committed};
use pantheon_store::configuration::{CompiledConfiguration, ComponentDigests, ConfigurationComponent};
use pantheon_store::error::StoreError;
use pantheon_store::planning::{
    prerequisites_satisfied, GoalPhase, GoalRevisionRow, GoalSpec, MaterializablePlan, MaterializedPlan,
    PlanningDecision, PlanningState, ProposalRecord, TaskGraphEdge, TaskPhase, TaskRecord,
};
use pantheon_store::revision::Revision;
use pantheon_store::store::Store;

const GOAL_DIGEST: [u8; 32] = [0x61; 32];
const GOAL_JSON: &str = "{\"objective\":\"Fix the checkout timeout with the smallest safe change.\"}";

fn compiled(memory_limit: u8) -> CompiledConfiguration {
    let component = |domain: &str, seed: u8| ConfigurationComponent {
        digest: [seed; 32],
        domain: domain.to_string(),
        canonical_json: format!("{{\"{domain}\":{seed},\"memoryLimit\":{memory_limit}}}"),
    };
    let base = memory_limit.wrapping_mul(8);
    CompiledConfiguration {
        components: vec![
            component("agents", base.wrapping_add(1)),
            component("routing", base.wrapping_add(2)),
            component("executionProfiles", base.wrapping_add(3)),
            component("evaluators", base.wrapping_add(4)),
            component("context", base.wrapping_add(5)),
            component("authorization", base.wrapping_add(6)),
        ],
        component_digests: ComponentDigests {
            agents: [base.wrapping_add(1); 32],
            routing: [base.wrapping_add(2); 32],
            execution_profile: [base.wrapping_add(3); 32],
            evaluator_registry: [base.wrapping_add(4); 32],
            context_policy: [base.wrapping_add(5); 32],
            authorization: [base.wrapping_add(6); 32],
        },
        revision_digest: [memory_limit; 32],
        compiler_version: "compiler-1".to_string(),
    }
}

fn command<'a>(epoch: &'a str, id: &'a str, hash: &'a [u8; 32], event: &'a str) -> Command<'a> {
    Command { epoch, id, request_hash: hash, event_type: event }
}

fn activate_configuration(store: &mut Store, command_id: &str, memory_limit: u8) {
    let epoch = store.restore_generation().to_string();
    let expected = store.configuration_pointer().expect("pointer").revision;
    store
        .activate_configuration(
            &command(&epoch, command_id, &[3; 32], "configuration.activated"),
            &compiled(memory_limit),
            [0x5e; 32],
            expected,
        )
        .expect("activation commits");
}

/// A store whose active configuration exists, and its activation sequence.
fn store_with_configuration() -> (Store, i64) {
    let mut store = Store::new();
    activate_configuration(&mut store, "cfg-1", 40);
    let sequence = store.configuration_pointer().expect("pointer").active.expect("active").activation_sequence;
    (store, sequence)
}

fn goal_spec() -> GoalSpec<'static> {
    GoalSpec { digest: &GOAL_DIGEST, canonical_json: GOAL_JSON }
}

fn create_goal(store: &mut Store, goal_id: &str, command_id: &str) {
    let epoch = store.restore_generation().to_string();
    store
        .create_goal(&command(&epoch, command_id, &[2; 32], "goal.created"), goal_id, &goal_spec())
        .expect("goal creation commits");
}

/// The proposal DIRECT planning yields for a Goal; it names the Goal, so two
/// Goals never share one.
fn proposal_digest(goal_id: &str) -> [u8; 32] {
    let mut digest = [0x63; 32];
    digest[31] = *goal_id.as_bytes().last().unwrap_or(&0);
    digest
}

/// Records the DIRECT planning decision for `goal_id` and returns its id.
fn plan_and_record(store: &mut Store, goal_id: &str, config_sequence: i64, op_id: &str) -> String {
    let epoch = store.restore_generation().to_string();
    store
        .record_direct_planning(
            &command(&epoch, op_id, &[1; 32], "planning.recorded"),
            &PlanningDecision {
                operation_id: op_id,
                goal_id,
                goal_revision: 1,
                expected_graph_revision: 0,
                configuration_activation_sequence: config_sequence,
                planning_input_digest: [0x62; 32],
                trigger_kind: "initial",
                planner_implementation: "direct",
                planner_version: "1",
            },
            &ProposalRecord {
                digest: proposal_digest(goal_id),
                canonical: "{\"tasks\":[{\"objective\":\"fix\"}]}",
                normalization_provenance: "direct/v1",
            },
        )
        .expect("planning commits");
    op_id.to_string()
}

/// What validating the recorded proposal against the stored Goal yields.
struct Validated {
    goal_content_digest: [u8; 32],
    proposal_digest: [u8; 32],
    spec_digest: [u8; 32],
    spec_json: String,
    registry: [u8; 32],
    config_sequence: i64,
    outputs: Vec<DeclaredOutput>,
}

impl Validated {
    fn plan(&self) -> MaterializablePlan<'_> {
        MaterializablePlan {
            goal_revision: 1,
            goal_content_digest: self.goal_content_digest,
            proposal_digest: self.proposal_digest,
            spec_digest: self.spec_digest,
            spec_canonical_json: &self.spec_json,
            acceptance_digest: [0x65; 32],
            evaluator_registry_digest: self.registry,
            configuration_activation_sequence: self.config_sequence,
            outputs: &self.outputs,
        }
    }
}

fn validated_for(goal_id: &str, config_sequence: i64, registry: [u8; 32], version: &str) -> Validated {
    let mut spec_digest = [0x64; 32];
    spec_digest[31] = *goal_id.as_bytes().last().unwrap_or(&0);
    Validated {
        goal_content_digest: GOAL_DIGEST,
        proposal_digest: proposal_digest(goal_id),
        spec_digest,
        spec_json: format!(
            "{{\"goalId\":\"{goal_id}\",\"acceptance\":{{\"evaluator\":\"{version}\",\"evaluatorRegistryDigest\":\"{}\"}}}}",
            registry.iter().map(|b| format!("{b:02x}")).collect::<String>()
        ),
        registry,
        config_sequence,
        outputs: vec![DeclaredOutput {
            name: "changeset".to_string(),
            kind: "code.changeset".to_string(),
            required: true,
        }],
    }
}

fn validated(config_sequence: i64, registry: [u8; 32], version: &str) -> Validated {
    validated_for("goal-1", config_sequence, registry, version)
}

fn materialize(
    store: &mut Store,
    op_id: &str,
    task_id: &str,
    plan: &Validated,
    command_id: &str,
) -> Result<MaterializedPlan, StoreError> {
    let epoch = store.restore_generation().to_string();
    store
        .materialize_plan(&command(&epoch, command_id, &[4; 32], "graph.patched"), op_id, task_id, &plan.plan())
        .map(|committed| match committed {
            Committed::Executed { value, .. } => value,
            Committed::Replayed { .. } => panic!("expected execution, got a replay"),
        })
}

fn tasks_for_goal(store: &Store, goal_id: &str) -> Vec<TaskRecord> {
    store.tasks.iter().filter(|t| t.goal_id == goal_id).cloned().collect()
}

fn registry() -> [u8; 32] {
    [0x44; 32]
}

#[test]
fn a_new_goal_begins_in_planning_with_an_empty_graph() {
    let (mut store, _seq) = store_with_configuration();
    create_goal(&mut store, "goal-1", "cmd-goal");

    let goal = store.goal("goal-1").expect("read goal").expect("exists");
    assert_eq!(goal.phase, GoalPhase::Planning, "a Goal with no graph is Planning");
    assert_eq!(goal.current_revision, 1);

    let graph = store.task_graph("goal-1").expect("read graph").expect("exists");
    assert_eq!(graph.revision, Revision::new(0), "the graph exists before any Task");
    assert!(tasks_for_goal(&store, "goal-1").is_empty());
}

#[test]
fn the_whole_path_produces_one_ready_task_in_one_graph_revision() {
    let (mut store, seq) = store_with_configuration();
    create_goal(&mut store, "goal-1", "cmd-goal");
    let op = plan_and_record(&mut store, "goal-1", seq, "op-1");

    // The planning decision is durable evidence and has changed nothing.
    let operation = store.planning_operation(&op).expect("read operation").expect("exists");
    assert_eq!(operation.state, PlanningState::Planned);
    assert_eq!(operation.goal_revision, 1);
    assert_eq!(operation.expected_graph_revision, 0);
    assert!(tasks_for_goal(&store, "goal-1").is_empty(), "a recorded proposal must not have created a Task");
    assert_eq!(
        store.task_graph("goal-1").expect("graph").expect("exists").revision,
        Revision::new(0),
        "a recorded proposal must not have patched the graph"
    );

    let plan = validated(seq, registry(), "unit-tests-v1");
    let outcome = materialize(&mut store, &op, "task-1", &plan, "cmd-materialize").expect("materialization commits");

    assert_eq!(outcome.graph_revision, 1);
    assert_eq!(outcome.goal_phase, GoalPhase::Active);

    let tasks = tasks_for_goal(&store, "goal-1");
    assert_eq!(tasks.len(), 1, "DIRECT materializes exactly one Task");
    let task = &tasks[0];
    assert_eq!(task.phase, TaskPhase::Ready, "no unmet prerequisites, no Runs");
    assert_eq!(task.active_run_id, None, "Ready means zero nonterminal Runs");
    assert_eq!(task.created_graph_revision, 1);

    // The Goal now has coherent graph authority, but Task creation is not
    // Goal success.
    let goal = store.goal("goal-1").expect("goal").expect("exists");
    assert_eq!(goal.phase, GoalPhase::Active);
    assert!(goal.phase.is_nonterminal());

    // The decision is spent, so it cannot patch the graph again.
    let operation = store.planning_operation(&op).expect("op").expect("exists");
    assert_eq!(operation.state, PlanningState::Materialized);
}

#[test]
fn the_materialized_task_pins_the_evaluator_version_durably() {
    let (mut store, seq) = store_with_configuration();
    create_goal(&mut store, "goal-1", "cmd-goal");
    let op = plan_and_record(&mut store, "goal-1", seq, "op-1");
    let plan = validated(seq, registry(), "unit-tests-v1");
    materialize(&mut store, &op, "task-1", &plan, "cmd-materialize").expect("commits");

    let task = tasks_for_goal(&store, "goal-1").remove(0);
    let spec_json = store.task_spec_json(&task.spec_digest).expect("read spec").expect("exists");

    assert!(spec_json.contains("unit-tests-v1"), "the exact version is pinned");
    assert!(spec_json.contains("evaluatorRegistryDigest"), "resolution provenance travels with the pin");
    assert!(!spec_json.contains("argv"), "a Task may not embed an executable command");
}

#[test]
fn a_stale_goal_revision_cannot_materialize() {
    let (mut store, seq) = store_with_configuration();
    create_goal(&mut store, "goal-1", "cmd-goal");
    let op = plan_and_record(&mut store, "goal-1", seq, "op-1");

    // The Goal moves on after planning observed revision 1.
    store.goal_revisions.push(GoalRevisionRow {
        goal_id: "goal-1".to_string(),
        revision: 2,
        content_digest: [9; 32],
        canonical_json: "{}".to_string(),
    });
    store.goals[0].current_revision = 2;
    store.goals[0].revision = Revision::new(2);

    let plan = validated(seq, registry(), "unit-tests-v1");
    let err = materialize(&mut store, &op, "task-1", &plan, "cmd-materialize")
        .expect_err("a plan for a superseded Goal revision must be refused");
    assert!(matches!(err, StoreError::RevisionConflict { table: "goal_revisions", .. }), "unexpected: {err:?}");
    assert!(tasks_for_goal(&store, "goal-1").is_empty(), "a stale plan must not create a Task");
    assert_eq!(
        store.task_graph("goal-1").expect("graph").expect("exists").revision,
        Revision::new(0),
        "and must not patch the graph"
    );
}

#[test]
fn a_stale_graph_revision_cannot_materialize() {
    let (mut store, seq) = store_with_configuration();
    create_goal(&mut store, "goal-1", "cmd-goal");
    let op = plan_and_record(&mut store, "goal-1", seq, "op-1");

    // Something else patches the graph after planning froze revision 0.
    store.task_graphs[0].revision = Revision::new(1);

    let plan = validated(seq, registry(), "unit-tests-v1");
    let err = materialize(&mut store, &op, "task-1", &plan, "cmd-materialize")
        .expect_err("a plan against a superseded graph revision must be refused");
    assert!(matches!(err, StoreError::RevisionConflict { table: "task_graphs", .. }), "unexpected: {err:?}");
    assert!(tasks_for_goal(&store, "goal-1").is_empty());
}

#[test]
fn a_configuration_change_since_planning_cannot_materialize() {
    // Current policy is rechecked, not only Goal and graph: the plan pinned
    // evaluator versions from a configuration that is no longer active.
    let (mut store, seq) = store_with_configuration();
    create_goal(&mut store, "goal-1", "cmd-goal");
    let op = plan_and_record(&mut store, "goal-1", seq, "op-1");

    activate_configuration(&mut store, "cfg-2", 41);

    let plan = validated(seq, registry(), "unit-tests-v1");
    let err = materialize(&mut store, &op, "task-1", &plan, "cmd-materialize")
        .expect_err("a plan under a superseded configuration must be refused");
    assert!(
        matches!(err, StoreError::RevisionConflict { table: "active_configuration", .. }),
        "unexpected: {err:?}"
    );
    assert!(tasks_for_goal(&store, "goal-1").is_empty());
}

#[test]
fn one_planning_decision_cannot_materialize_twice() {
    // Replay protection covers the same command identity; this covers a
    // second, different command reusing a spent decision.
    let (mut store, seq) = store_with_configuration();
    create_goal(&mut store, "goal-1", "cmd-goal");
    let op = plan_and_record(&mut store, "goal-1", seq, "op-1");
    let plan = validated(seq, registry(), "unit-tests-v1");
    materialize(&mut store, &op, "task-1", &plan, "cmd-materialize").expect("first commits");

    let err = materialize(&mut store, &op, "task-2", &plan, "cmd-materialize-again")
        .expect_err("a spent decision must not patch the graph again");
    assert!(
        matches!(err, StoreError::RevisionConflict { table: "planning_operations", .. }),
        "unexpected: {err:?}"
    );
    assert_eq!(tasks_for_goal(&store, "goal-1").len(), 1, "still exactly one Task");
}

#[test]
fn replaying_the_command_identities_creates_no_duplicate_authority() {
    let (mut store, seq) = store_with_configuration();
    create_goal(&mut store, "goal-1", "cmd-goal");
    let op = plan_and_record(&mut store, "goal-1", seq, "op-1");
    let plan = validated(seq, registry(), "unit-tests-v1");
    materialize(&mut store, &op, "task-1", &plan, "cmd-materialize").expect("commits");

    // Every command replayed with the same identity and hash.
    let epoch = store.restore_generation().to_string();
    let replayed_goal = store
        .create_goal(&command(&epoch, "cmd-goal", &[2; 32], "goal.created"), "goal-1", &goal_spec())
        .expect("goal creation reconciles");
    assert!(!replayed_goal.was_executed());

    let replayed_materialize = store
        .materialize_plan(&command(&epoch, "cmd-materialize", &[4; 32], "graph.patched"), &op, "task-1", &plan.plan())
        .expect("materialization reconciles");
    assert!(!replayed_materialize.was_executed());

    // Exactly one of everything.
    assert_eq!(tasks_for_goal(&store, "goal-1").len(), 1);
    assert_eq!(store.task_graph("goal-1").expect("graph").expect("exists").revision, Revision::new(1));
    assert_eq!(store.goal_revisions.len(), 1);
    assert_eq!(store.planning_operations.len(), 1);
}

#[test]
fn a_failure_during_materialization_leaves_the_graph_untouched() {
    let (mut store, seq) = store_with_configuration();
    create_goal(&mut store, "goal-1", "cmd-goal");
    let op = plan_and_record(&mut store, "goal-1", seq, "op-1");
    let plan = validated(seq, registry(), "unit-tests-v1");

    // Every precondition holds except that the Goal row has no revision
    // left, the last check before the patch is written.
    store.goals[0].revision = Revision::new(i64::MAX);
    let err = materialize(&mut store, &op, "task-1", &plan, "cmd-doomed").expect_err("the patch is refused");
    assert!(matches!(err, StoreError::InvariantViolated(_)));

    assert!(tasks_for_goal(&store, "goal-1").is_empty(), "no Task may survive");
    assert_eq!(
        store.task_graph("goal-1").expect("graph").expect("exists").revision,
        Revision::new(0),
        "the graph revision must not have advanced"
    );
    assert_eq!(
        store.goal("goal-1").expect("goal").expect("exists").phase,
        GoalPhase::Planning,
        "the Goal must not have left Planning"
    );
    assert_eq!(
        store.planning_operation(&op).expect("op").expect("exists").state,
        PlanningState::Planned,
        "the decision must still be spendable"
    );
    assert!(store.task_specs.is_empty(), "no immutable spec may survive");
}

#[test]
fn readiness_follows_the_dependency_predicate_rather_than_assuming_a_first_task_is_ready() {
    let (mut store, seq) = store_with_configuration();
    create_goal(&mut store, "goal-1", "cmd-goal");
    let op = plan_and_record(&mut store, "goal-1", seq, "op-1");
    let plan = validated(seq, registry(), "unit-tests-v1");
    materialize(&mut store, &op, "task-1", &plan, "cmd-materialize").expect("commits");

    // An upstream Task that has not succeeded, and an edge into the existing
    // Task, active at the current graph revision.
    let mut upstream = store.tasks[0].clone();
    upstream.id = "task-upstream".to_string();
    store.tasks.push(upstream);
    store.task_graph_edges.push(TaskGraphEdge {
        goal_id: "goal-1".to_string(),
        upstream_task_id: "task-upstream".to_string(),
        downstream_task_id: "task-1".to_string(),
        created_graph_revision: 1,
        removed_graph_revision: None,
    });

    assert!(
        !prerequisites_satisfied(&store.tasks, &store.task_graph_edges, "task-1", 1),
        "a Task whose upstream has not succeeded has unmet prerequisites"
    );

    // And a terminally failed upstream is never silently satisfied.
    store.tasks[1].phase = TaskPhase::Finalizing;
    store.tasks[1].phase = TaskPhase::Failed;
    assert!(
        !prerequisites_satisfied(&store.tasks, &store.task_graph_edges, "task-1", 1),
        "a failed upstream must never count as a satisfied prerequisite"
    );

    // Only terminal success satisfies it.
    store.tasks[1].phase = TaskPhase::Succeeded;
    assert!(
        prerequisites_satisfied(&store.tasks, &store.task_graph_edges, "task-1", 1),
        "a succeeded upstream satisfies the prerequisite"
    );
}

#[test]
fn a_plan_validated_against_a_different_goal_cannot_materialize() {
    // Fencing the revision number is not enough: this plan claims the right
    // revision but was validated against wider Goal content than is stored.
    let (mut store, seq) = store_with_configuration();
    create_goal(&mut store, "goal-1", "cmd-goal");
    let op = plan_and_record(&mut store, "goal-1", seq, "op-1");

    let mut plan = validated(seq, registry(), "unit-tests-v1");
    plan.goal_content_digest = [0x99; 32];

    let err = materialize(&mut store, &op, "task-1", &plan, "cmd-materialize")
        .expect_err("a plan validated against a different goal must be refused");
    assert!(
        matches!(err, StoreError::InvariantViolated(ref d) if d.contains("not the stored revision")),
        "unexpected: {err:?}"
    );
    assert!(tasks_for_goal(&store, "goal-1").is_empty(), "no Task may exceed the stored Goal's ceiling");
    assert_eq!(store.task_graph("goal-1").expect("graph").expect("exists").revision, Revision::new(0));
}

#[test]
fn a_plan_that_is_not_the_recorded_proposal_cannot_materialize() {
    let (mut store, seq) = store_with_configuration();
    create_goal(&mut store, "goal-1", "cmd-goal");
    let op = plan_and_record(&mut store, "goal-1", seq, "op-1");

    // A different proposal for the same Goal, itself valid.
    let mut plan = validated(seq, registry(), "unit-tests-v1");
    plan.proposal_digest = [0x98; 32];

    let err = materialize(&mut store, &op, "task-1", &plan, "cmd-materialize")
        .expect_err("a proposal the operation did not record must be refused");
    assert!(
        matches!(err, StoreError::InvariantViolated(ref d) if d.contains("recorded for operation")),
        "unexpected: {err:?}"
    );
    assert!(tasks_for_goal(&store, "goal-1").is_empty());
}

#[test]
fn two_goals_with_identical_content_do_not_share_one_task_spec() {
    let (mut store, seq) = store_with_configuration();
    create_goal(&mut store, "goal-1", "cmd-goal-1");
    create_goal(&mut store, "goal-2", "cmd-goal-2");

    let op1 = plan_and_record(&mut store, "goal-1", seq, "op-1");
    let op2 = plan_and_record(&mut store, "goal-2", seq, "op-2");

    let plan1 = validated_for("goal-1", seq, registry(), "unit-tests-v1");
    let plan2 = validated_for("goal-2", seq, registry(), "unit-tests-v1");
    assert_ne!(plan1.spec_digest, plan2.spec_digest, "identical content under different Goals must not be one spec");

    materialize(&mut store, &op1, "task-1", &plan1, "cmd-mat-1").expect("first commits");
    materialize(&mut store, &op2, "task-2", &plan2, "cmd-mat-2").expect("second commits");

    let first = tasks_for_goal(&store, "goal-1").remove(0);
    let second = tasks_for_goal(&store, "goal-2").remove(0);
    assert_ne!(first.spec_digest, second.spec_digest);

    // And each spec row is attributed to its own Goal.
    let misattributed = store
        .tasks
        .iter()
        .filter(|task| {
            store.task_specs.iter().any(|spec| spec.digest == task.spec_digest && spec.goal_id != task.goal_id)
        })
        .count();
    assert_eq!(misattributed, 0, "no spec may be attributed to another Goal");
}

#[test]
fn materialization_reports_the_goal_phase_after_the_patch() {
    let (mut store, seq) = store_with_configuration();
    create_goal(&mut store, "goal-1", "cmd-goal");
    let op = plan_and_record(&mut store, "goal-1", seq, "op-1");
    // A Goal already past Planning keeps its phase: only Planning activates.
    store.goals.iter_mut().find(|g| g.id == "goal-1").unwrap().phase = GoalPhase::Evaluating;
    let plan = validated(seq, registry(), "unit-tests-v1");
    let outcome = materialize(&mut store, &op, "task-1", &plan, "cmd-materialize").expect("materialization commits");
    assert_eq!(outcome.goal_phase, GoalPhase::Evaluating);
    assert_eq!(store.goal("goal-1").unwrap().unwrap().phase, GoalPhase::Evaluating);
}
