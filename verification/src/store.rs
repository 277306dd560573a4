//! The authoritative state: every durable table the store owns, held as
//! plain rows, with the well-formedness every operation keeps.

use vstd::prelude::*;

use crate::agent_control::AgentRequestRow;
use crate::cancel::{GoalTargetRow, TaskTargetRow};
use crate::artifacts::{ArtifactMemberRow, ArtifactRecord, BlobRow, ProductionRecord, WorkspaceRevisionRow};
use crate::command::{ledger_unique, CommandRow};
use crate::context::ContextPlanRow;
use crate::configuration::{ActivePointerRow, ConfigurationComponent, ConfigurationRevisionRow};
use crate::execution::{AttemptRecord, AttemptStatusRow, RunContextPlanRecord, RunStatusRow, SessionRow};
use crate::operator::EventRecord;
use crate::planning::{
    GoalRecord, GoalRevisionRow, GraphRecord, PlanningOperationRow, PlanningRecordRow, TaskGraphEdge, TaskRecord,
    TaskSpecRow,
};
use crate::sandbox::{SandboxProbeRecord, SandboxRecord};
use crate::submission::{CandidateOutputRow, CandidateRow};
use crate::configuration::lemma_fresh_configuration_wf;
use crate::revision::Revision;
use crate::scheduling::{
    ContextSourceSnapshotRow, DispatchMode, ExecutionBindingRow, GoalSchedulingRow, RunRecord, SchedulerStateRecord,
    TaskSchedulingRow, WorkspaceRow,
};

verus! {

/// Pantheon's authoritative control-plane state, held in memory.
///
/// Each field stands for one table or singleton of the SQLite schema, as a
/// vector of rows; the schema's constraints are `wf`. The operations on it
/// model the store's authoritative transactions: each one either commits
/// its whole effect or returns an error with the state unchanged. Nothing
/// here reads or writes the database file: this value is not loaded from
/// an existing installation nor written back to one.
#[derive(Debug)]
pub struct Store {
    /// The migration bookkeeping: one row per applied migration, with the
    /// checksum it was applied under.
    pub schema_migrations: Vec<crate::migrations::AppliedMigration>,
    /// The installation's RestoreGeneration: the current command epoch.
    pub restore_generation: String,
    /// The current journal history.
    pub journal_epoch: String,
    /// The next journal sequence the allocator hands out.
    pub next_sequence: i64,
    /// The durable command ledger.
    pub commands: Vec<CommandRow>,
    /// The Event Journal, oldest first.
    pub events: Vec<EventRecord>,
    /// Content-addressed configuration components.
    pub configuration_components: Vec<ConfigurationComponent>,
    /// Immutable configuration revisions, by activation sequence.
    pub configuration_revisions: Vec<ConfigurationRevisionRow>,
    /// The singleton active-configuration pointer.
    pub active_configuration: ActivePointerRow,
    /// Mutable Goal rows.
    pub goals: Vec<GoalRecord>,
    /// The terminal target of each Goal that has one.
    pub goal_targets: Vec<GoalTargetRow>,
    /// Immutable Goal revisions.
    pub goal_revisions: Vec<GoalRevisionRow>,
    /// One TaskGraph per Goal.
    pub task_graphs: Vec<GraphRecord>,
    /// Immutable, content-addressed Task specs.
    pub task_specs: Vec<TaskSpecRow>,
    /// Materialized Tasks.
    pub tasks: Vec<TaskRecord>,
    /// The terminal target and reason of each Task that has one.
    pub task_targets: Vec<TaskTargetRow>,
    /// Temporal TaskGraph edges.
    pub task_graph_edges: Vec<TaskGraphEdge>,
    /// Durable planning decisions.
    pub planning_operations: Vec<PlanningOperationRow>,
    /// Immutable normalized proposals.
    pub planning_records: Vec<PlanningRecordRow>,
    /// Task-owned Workspaces, as far as dispatch reads them.
    pub workspaces: Vec<WorkspaceRow>,
    /// Immutable execution bindings, by digest.
    pub execution_bindings: Vec<ExecutionBindingRow>,
    /// Immutable context source snapshots, by digest.
    pub context_source_snapshots: Vec<ContextSourceSnapshotRow>,
    /// Immutable Run identities.
    pub runs: Vec<RunRecord>,
    /// Content-addressed Blobs.
    pub blobs: Vec<BlobRow>,
    /// Content-addressed Artifacts.
    pub artifacts: Vec<ArtifactRecord>,
    /// Artifact-to-Blob reachability.
    pub artifact_members: Vec<ArtifactMemberRow>,
    /// Immutable Workspace checkpoints.
    pub workspace_revisions: Vec<WorkspaceRevisionRow>,
    /// Production provenance, one per Run output slot.
    pub production_records: Vec<ProductionRecord>,
    /// Immutable Candidates, at most one per Run.
    pub candidates: Vec<CandidateRow>,
    /// The outputs of each Candidate.
    pub candidate_outputs: Vec<CandidateOutputRow>,
    /// Each Run's mutable lifecycle.
    pub run_status: Vec<RunStatusRow>,
    /// Immutable, content-addressed ContextPlans.
    pub context_plans: Vec<ContextPlanRow>,
    /// The one-time ContextPlan attachment of each prepared Run.
    pub run_context_plans: Vec<RunContextPlanRecord>,
    /// Immutable Attempt identities.
    pub attempts: Vec<AttemptRecord>,
    /// Each Attempt's mutable lifecycle.
    pub attempt_status: Vec<AttemptStatusRow>,
    /// Attempt-scoped Agent Control sessions.
    pub sessions: Vec<SessionRow>,
    /// The durable Agent Control request ledger.
    pub agent_requests: Vec<AgentRequestRow>,
    /// Run-owned Sandbox instances.
    pub sandboxes: Vec<SandboxRecord>,
    /// Controller-owned Sandbox probe evidence, in insertion order.
    pub probe_results: Vec<SandboxProbeRecord>,
    /// The singleton scheduler state.
    pub scheduler: SchedulerStateRecord,
    /// Each Goal's fairness position, for Goals that have been served.
    pub goal_scheduling: Vec<GoalSchedulingRow>,
    /// Each Task's scheduling eligibility and backoff.
    pub task_scheduling: Vec<TaskSchedulingRow>,
}

impl Store {
    /// The journal's own consistency: the allocator is ahead of every
    /// appended Event, and Events are in strictly increasing sequence order
    /// within the current history.
    pub open spec fn journal_wf(&self) -> bool {
        &&& 1 <= self.next_sequence
        &&& forall|i: int|
            0 <= i < self.events@.len() ==> {
                &&& (#[trigger] self.events@[i]).journal_epoch@ == self.journal_epoch@
                &&& 1 <= self.events@[i].sequence < self.next_sequence
            }
        &&& forall|i: int, j: int|
            0 <= i < j < self.events@.len() ==> #[trigger] self.events@[i].sequence
                < #[trigger] self.events@[j].sequence
    }

    /// Every invariant the store's transactions keep.
    pub open spec fn wf(&self) -> bool {
        &&& self.journal_wf()
        &&& ledger_unique(self.commands@)
        &&& self.configuration_wf()
        &&& self.planning_wf()
        &&& self.context_wf()
        &&& self.artifacts_wf()
        &&& self.submission_wf()
        &&& self.execution_wf()
        &&& self.agent_control_wf()
        &&& self.sandbox_wf()
        &&& self.scheduling_wf()
        &&& self.targets_wf()
    }
}

impl Store {
    /// Whether this is a freshly installed store: every migration applied,
    /// the installation identity and journal epoch drawn, the singleton rows
    /// at their first revision, and nothing else recorded.
    pub open spec fn is_fresh(&self) -> bool {
        &&& crate::migrations::applied_version(self.schema_migrations@) == crate::migrations::max_known_version()
        &&& self.schema_migrations@.len() == crate::migrations::max_known_version()
        &&& self.restore_generation@.len() == 32
        &&& self.journal_epoch@.len() == 32
        &&& self.next_sequence == 1
        &&& self.commands@.len() == 0
        &&& self.events@.len() == 0
        &&& self.configuration_components@.len() == 0
        &&& self.configuration_revisions@.len() == 0
        &&& self.active_configuration == (ActivePointerRow { revision: Revision { value: 1 }, activation_sequence: None })
        &&& self.goals@.len() == 0
        &&& self.goal_targets@.len() == 0
        &&& self.goal_revisions@.len() == 0
        &&& self.task_graphs@.len() == 0
        &&& self.task_specs@.len() == 0
        &&& self.tasks@.len() == 0
        &&& self.task_targets@.len() == 0
        &&& self.task_graph_edges@.len() == 0
        &&& self.planning_operations@.len() == 0
        &&& self.planning_records@.len() == 0
        &&& self.workspaces@.len() == 0
        &&& self.execution_bindings@.len() == 0
        &&& self.context_source_snapshots@.len() == 0
        &&& self.runs@.len() == 0
        &&& self.blobs@.len() == 0
        &&& self.artifacts@.len() == 0
        &&& self.artifact_members@.len() == 0
        &&& self.workspace_revisions@.len() == 0
        &&& self.production_records@.len() == 0
        &&& self.candidates@.len() == 0
        &&& self.candidate_outputs@.len() == 0
        &&& self.run_status@.len() == 0
        &&& self.context_plans@.len() == 0
        &&& self.run_context_plans@.len() == 0
        &&& self.attempts@.len() == 0
        &&& self.attempt_status@.len() == 0
        &&& self.sessions@.len() == 0
        &&& self.agent_requests@.len() == 0
        &&& self.sandboxes@.len() == 0
        &&& self.probe_results@.len() == 0
        &&& self.scheduler == (SchedulerStateRecord {
            dispatch_mode: DispatchMode::Running,
            next_service_sequence: 1,
            revision: Revision { value: 1 },
        })
        &&& self.goal_scheduling@.len() == 0
        &&& self.task_scheduling@.len() == 0
    }

    /// A freshly installed store, with a new unpredictable RestoreGeneration
    /// and an independently drawn journal epoch.
    pub fn new() -> (s: Store)
        ensures
            s.is_fresh(),
            s.wf(),
    {
        let s = Store {
            schema_migrations: crate::migrations::apply_all(),
            restore_generation: crate::clock::random_hex_id(),
            journal_epoch: crate::clock::random_hex_id(),
            next_sequence: 1,
            commands: Vec::new(),
            events: Vec::new(),
            configuration_components: Vec::new(),
            configuration_revisions: Vec::new(),
            active_configuration: ActivePointerRow { revision: Revision { value: 1 }, activation_sequence: None },
            goals: Vec::new(),
            goal_targets: Vec::new(),
            goal_revisions: Vec::new(),
            task_graphs: Vec::new(),
            task_specs: Vec::new(),
            tasks: Vec::new(),
            task_targets: Vec::new(),
            task_graph_edges: Vec::new(),
            planning_operations: Vec::new(),
            planning_records: Vec::new(),
            workspaces: Vec::new(),
            execution_bindings: Vec::new(),
            context_source_snapshots: Vec::new(),
            runs: Vec::new(),
            blobs: Vec::new(),
            artifacts: Vec::new(),
            artifact_members: Vec::new(),
            workspace_revisions: Vec::new(),
            production_records: Vec::new(),
            candidates: Vec::new(),
            candidate_outputs: Vec::new(),
            run_status: Vec::new(),
            context_plans: Vec::new(),
            run_context_plans: Vec::new(),
            attempts: Vec::new(),
            attempt_status: Vec::new(),
            sessions: Vec::new(),
            agent_requests: Vec::new(),
            sandboxes: Vec::new(),
            probe_results: Vec::new(),
            scheduler: SchedulerStateRecord {
                dispatch_mode: DispatchMode::Running,
                next_service_sequence: 1,
                revision: Revision { value: 1 },
            },
            goal_scheduling: Vec::new(),
            task_scheduling: Vec::new(),
        };
        proof {
            lemma_fresh_configuration_wf();
            assert(s.configuration_components@ =~= Seq::<ConfigurationComponent>::empty());
            assert(s.configuration_revisions@ =~= Seq::<ConfigurationRevisionRow>::empty());
        }
        s
    }

    /// The installation's current RestoreGeneration: the epoch every command
    /// must carry.
    pub fn restore_generation(&self) -> (r: &str)
        ensures
            r@ == self.restore_generation@,
    {
        self.restore_generation.as_str()
    }
}

} // verus!
