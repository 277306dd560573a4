//! Durable Goal, planning and TaskGraph authority.
//!
//! Three authoritative mutations, each under the command kernel:
//!
//! 1. [`Store::create_goal`]: the Goal, its first immutable revision, and its
//!    empty graph at revision 0.
//! 2. [`Store::record_direct_planning`]: the durable PlanningOperation and
//!    its immutable normalized PlanningRecord. This is evidence, never
//!    authority over the graph.
//! 3. [`Store::materialize_plan`]: the graph patch that creates the Task. It
//!    re-reads the Goal revision, the graph revision and the active
//!    configuration and compares them against what the operation froze, so a
//!    proposal whose world has moved is refused rather than applied.

use vstd::prelude::*;
use vstd::string::StringExecFns;

use crate::agent_control::{copy_outputs, DeclaredOutput};
use crate::command::{class_of, command_recorded, gate_outcome, Command, CommandClass, Committed, Gate};
use crate::error::StoreError;
use crate::revision::Revision;
use crate::store::Store;
use crate::table::{
    find_last, has_key, lemma_find_last, lemma_find_last_is, lemma_has_key_push_all, lemma_has_key_update_all, lemma_unique_push,
    lemma_unique_update, unique_by,
};
use crate::cancel::lemma_targets_kept;
use crate::text::{bytes_eq, copy_text_option, str_eq};

verus! {

/// Where a Goal stands.
#[derive(Debug, Clone, Copy, PartialEq, Eq, Structural)]
pub enum GoalPhase {
    Planning,
    Active,
    Evaluating,
    Finalizing,
    Succeeded,
    Failed,
    Cancelled,
}

impl GoalPhase {
    /// The stored spelling, in specifications.
    pub open spec fn spec_as_str(self) -> &'static str {
        match self {
            GoalPhase::Planning => "Planning",
            GoalPhase::Active => "Active",
            GoalPhase::Evaluating => "Evaluating",
            GoalPhase::Finalizing => "Finalizing",
            GoalPhase::Succeeded => "Succeeded",
            GoalPhase::Failed => "Failed",
            GoalPhase::Cancelled => "Cancelled",
        }
    }

    /// The stored spelling.
    #[verifier::when_used_as_spec(spec_as_str)]
    pub fn as_str(self) -> (r: &'static str)
        ensures
            r == self.spec_as_str(),
    {
        match self {
            GoalPhase::Planning => "Planning",
            GoalPhase::Active => "Active",
            GoalPhase::Evaluating => "Evaluating",
            GoalPhase::Finalizing => "Finalizing",
            GoalPhase::Succeeded => "Succeeded",
            GoalPhase::Failed => "Failed",
            GoalPhase::Cancelled => "Cancelled",
        }
    }

    /// Whether the phase is immutable terminal history, in specifications.
    pub open spec fn spec_is_terminal(self) -> bool {
        self is Succeeded || self is Failed || self is Cancelled
    }

    /// Whether the phase is immutable terminal history.
    #[verifier::when_used_as_spec(spec_is_terminal)]
    pub fn is_terminal(self) -> (r: bool)
        ensures
            r == self.spec_is_terminal(),
    {
        match self {
            GoalPhase::Succeeded | GoalPhase::Failed | GoalPhase::Cancelled => true,
            _ => false,
        }
    }

    /// Whether the Goal may still change phase.
    pub fn is_nonterminal(self) -> (r: bool)
        ensures
            r == !self.spec_is_terminal(),
    {
        !self.is_terminal()
    }
}

/// Where a Task stands.
#[derive(Debug, Clone, Copy, PartialEq, Eq, Structural)]
pub enum TaskPhase {
    Pending,
    Ready,
    Active,
    Waiting,
    Evaluating,
    Finalizing,
    Succeeded,
    Failed,
    Cancelled,
    Superseded,
}

impl TaskPhase {
    /// The stored spelling, in specifications.
    pub open spec fn spec_as_str(self) -> &'static str {
        match self {
            TaskPhase::Pending => "Pending",
            TaskPhase::Ready => "Ready",
            TaskPhase::Active => "Active",
            TaskPhase::Waiting => "Waiting",
            TaskPhase::Evaluating => "Evaluating",
            TaskPhase::Finalizing => "Finalizing",
            TaskPhase::Succeeded => "Succeeded",
            TaskPhase::Failed => "Failed",
            TaskPhase::Cancelled => "Cancelled",
            TaskPhase::Superseded => "Superseded",
        }
    }

    /// The stored spelling.
    #[verifier::when_used_as_spec(spec_as_str)]
    pub fn as_str(self) -> (r: &'static str)
        ensures
            r == self.spec_as_str(),
    {
        match self {
            TaskPhase::Pending => "Pending",
            TaskPhase::Ready => "Ready",
            TaskPhase::Active => "Active",
            TaskPhase::Waiting => "Waiting",
            TaskPhase::Evaluating => "Evaluating",
            TaskPhase::Finalizing => "Finalizing",
            TaskPhase::Succeeded => "Succeeded",
            TaskPhase::Failed => "Failed",
            TaskPhase::Cancelled => "Cancelled",
            TaskPhase::Superseded => "Superseded",
        }
    }

    /// Whether the phase is immutable terminal history, in specifications.
    pub open spec fn spec_is_terminal(self) -> bool {
        self is Succeeded || self is Failed || self is Cancelled || self is Superseded
    }

    /// Whether the phase is immutable terminal history.
    #[verifier::when_used_as_spec(spec_is_terminal)]
    pub fn is_terminal(self) -> (r: bool)
        ensures
            r == self.spec_is_terminal(),
    {
        match self {
            TaskPhase::Succeeded | TaskPhase::Failed | TaskPhase::Cancelled | TaskPhase::Superseded => true,
            _ => false,
        }
    }

    /// Whether the Task may still change phase.
    pub fn is_nonterminal(self) -> (r: bool)
        ensures
            r == !self.spec_is_terminal(),
    {
        !self.is_terminal()
    }
}

/// Where a planning decision stands.
#[derive(Debug, Clone, Copy, PartialEq, Eq, Structural)]
pub enum PlanningState {
    /// A proposal exists and has not been materialized.
    Planned,
    /// Its proposal became authoritative graph state.
    Materialized,
    /// It was refused and can never materialize.
    Rejected,
}

impl PlanningState {
    /// The stored spelling, in specifications.
    pub open spec fn spec_as_str(self) -> &'static str {
        match self {
            PlanningState::Planned => "Planned",
            PlanningState::Materialized => "Materialized",
            PlanningState::Rejected => "Rejected",
        }
    }

    /// The stored spelling.
    #[verifier::when_used_as_spec(spec_as_str)]
    pub fn as_str(self) -> (r: &'static str)
        ensures
            r == self.spec_as_str(),
    {
        match self {
            PlanningState::Planned => "Planned",
            PlanningState::Materialized => "Materialized",
            PlanningState::Rejected => "Rejected",
        }
    }

    /// The state a stored spelling names, if any.
    pub fn parse(text: &str) -> (r: Option<PlanningState>)
        ensures
            r == (if text@ == "Planned"@ {
                Some(PlanningState::Planned)
            } else if text@ == "Materialized"@ {
                Some(PlanningState::Materialized)
            } else if text@ == "Rejected"@ {
                Some(PlanningState::Rejected)
            } else {
                None
            }),
    {
        if str_eq(text, "Planned") {
            Some(PlanningState::Planned)
        } else if str_eq(text, "Materialized") {
            Some(PlanningState::Materialized)
        } else if str_eq(text, "Rejected") {
            Some(PlanningState::Rejected)
        } else {
            None
        }
    }
}

/// The mutable Goal row.
#[derive(Debug, Clone, PartialEq, Eq)]
pub struct GoalRecord {
    pub id: String,
    pub phase: GoalPhase,
    /// The revision pointer naming the current immutable GoalRevision.
    pub current_revision: i64,
    /// The row revision, for lifecycle CAS.
    pub revision: Revision,
}

/// One immutable Goal revision.
#[derive(Debug, Clone, PartialEq, Eq)]
pub struct GoalRevisionRow {
    pub goal_id: String,
    pub revision: i64,
    pub content_digest: [u8; 32],
    pub canonical_json: String,
}

/// The Goal-owned TaskGraph.
#[derive(Debug, Clone, PartialEq, Eq)]
pub struct GraphRecord {
    pub goal_id: String,
    /// The graph revision. A patch CASes this.
    pub revision: Revision,
}

/// One immutable, content-addressed Task spec.
#[derive(Debug, Clone, PartialEq, Eq)]
pub struct TaskSpecRow {
    pub digest: [u8; 32],
    pub goal_id: String,
    pub goal_revision: i64,
    pub canonical_json: String,
    pub acceptance_digest: [u8; 32],
    pub evaluator_registry_digest: [u8; 32],
    pub configuration_activation_sequence: i64,
    /// The output slots the spec declares.
    pub outputs: Vec<DeclaredOutput>,
}

/// A materialized Task.
#[derive(Debug, Clone, PartialEq, Eq)]
pub struct TaskRecord {
    pub id: String,
    pub goal_id: String,
    pub phase: TaskPhase,
    pub created_graph_revision: i64,
    pub spec_digest: [u8; 32],
    pub revision: Revision,
    /// The responsible Run, while one is nonterminal.
    pub active_run_id: Option<String>,
}

/// One temporal `requires_success` edge: active at graph revision `r` when
/// created at or before `r` and not removed at or before `r`.
#[derive(Debug, Clone, PartialEq, Eq)]
pub struct TaskGraphEdge {
    pub goal_id: String,
    pub upstream_task_id: String,
    pub downstream_task_id: String,
    pub created_graph_revision: i64,
    pub removed_graph_revision: Option<i64>,
}

/// The durable planning decision.
#[derive(Debug, Clone, PartialEq, Eq)]
pub struct PlanningOperationRecord {
    pub id: String,
    pub goal_id: String,
    pub goal_revision: i64,
    pub expected_graph_revision: i64,
    pub configuration_activation_sequence: i64,
    pub planning_input_digest: [u8; 32],
    pub state: PlanningState,
    pub revision: Revision,
}

/// One stored planning operation row, with its provenance.
#[derive(Debug, Clone, PartialEq, Eq)]
pub struct PlanningOperationRow {
    pub record: PlanningOperationRecord,
    pub trigger_kind: String,
    pub planner_implementation: String,
    pub planner_version: String,
}

/// One immutable normalized proposal, keyed by its operation.
#[derive(Debug, Clone, PartialEq, Eq)]
pub struct PlanningRecordRow {
    pub planning_operation_id: String,
    pub proposal_digest: [u8; 32],
    pub canonical_proposal: String,
    pub normalization_provenance: String,
}

/// A Goal's specification as the store records it: its content identity and
/// canonical form.
#[derive(Debug, Clone, Copy)]
pub struct GoalSpec<'a> {
    pub digest: &'a [u8; 32],
    pub canonical_json: &'a str,
}

/// What a DIRECT planning decision froze.
#[derive(Debug, Clone, Copy)]
pub struct PlanningDecision<'a> {
    pub operation_id: &'a str,
    pub goal_id: &'a str,
    pub goal_revision: i64,
    pub expected_graph_revision: i64,
    pub configuration_activation_sequence: i64,
    pub planning_input_digest: [u8; 32],
    pub trigger_kind: &'a str,
    pub planner_implementation: &'a str,
    pub planner_version: &'a str,
}

/// The immutable normalized proposal produced by that decision.
#[derive(Debug, Clone, Copy)]
pub struct ProposalRecord<'a> {
    pub digest: [u8; 32],
    pub canonical: &'a str,
    pub normalization_provenance: &'a str,
}

/// A validated plan, ready to become a Task: the Goal revision and content
/// it was validated against, the proposal it came from, and the Task spec it
/// yields.
#[derive(Debug, Clone, Copy)]
pub struct MaterializablePlan<'a> {
    pub goal_revision: i64,
    /// The content digest of the Goal revision the plan was validated
    /// against.
    pub goal_content_digest: [u8; 32],
    /// The digest of the proposal the plan materializes.
    pub proposal_digest: [u8; 32],
    pub spec_digest: [u8; 32],
    pub spec_canonical_json: &'a str,
    pub acceptance_digest: [u8; 32],
    pub evaluator_registry_digest: [u8; 32],
    pub configuration_activation_sequence: i64,
    /// The output slots the spec declares.
    pub outputs: &'a Vec<DeclaredOutput>,
}

/// What one successful materialization established.
#[derive(Debug, Clone, PartialEq, Eq)]
pub struct MaterializedPlan {
    pub task: TaskRecord,
    /// The graph revision this patch produced.
    pub graph_revision: i64,
    /// The Goal phase after the patch.
    pub goal_phase: GoalPhase,
}

// ---- Keys and invariants -------------------------------------------------

pub open spec fn goal_key() -> spec_fn(GoalRecord) -> Seq<char> {
    |r: GoalRecord| r.id@
}

pub open spec fn goal_revision_key() -> spec_fn(GoalRevisionRow) -> (Seq<char>, i64) {
    |r: GoalRevisionRow| (r.goal_id@, r.revision)
}

pub open spec fn graph_key() -> spec_fn(GraphRecord) -> Seq<char> {
    |r: GraphRecord| r.goal_id@
}

pub open spec fn spec_key() -> spec_fn(TaskSpecRow) -> Seq<u8> {
    |r: TaskSpecRow| r.digest@
}

pub open spec fn task_key() -> spec_fn(TaskRecord) -> Seq<char> {
    |r: TaskRecord| r.id@
}

pub open spec fn operation_key() -> spec_fn(PlanningOperationRow) -> Seq<char> {
    |r: PlanningOperationRow| r.record.id@
}

pub open spec fn record_key() -> spec_fn(PlanningRecordRow) -> Seq<char> {
    |r: PlanningRecordRow| r.planning_operation_id@
}

/// The stored constraints of one Task row: only a Task with a responsible
/// Run is Active, and a Ready or Waiting Task has none.
pub open spec fn task_row_wf(t: TaskRecord) -> bool {
    &&& (t.phase is Ready || t.phase is Waiting) ==> t.active_run_id is None
    &&& t.phase is Active ==> t.active_run_id is Some
    &&& t.revision.value >= 1
}

impl Store {
    /// The planning family's invariants: every table is keyed, Task rows
    /// keep their phase/Run coherence, and revisions are in range.
    pub open spec fn planning_wf(&self) -> bool {
        &&& unique_by(self.goals@, goal_key())
        &&& forall|i: int| 0 <= i < self.goals@.len() ==> (#[trigger] self.goals@[i]).revision.value >= 1
        &&& unique_by(self.goal_revisions@, goal_revision_key())
        &&& unique_by(self.task_graphs@, graph_key())
        &&& forall|i: int| 0 <= i < self.task_graphs@.len() ==> (#[trigger] self.task_graphs@[i]).revision.value >= 0
        &&& unique_by(self.task_specs@, spec_key())
        &&& unique_by(self.tasks@, task_key())
        &&& forall|i: int| 0 <= i < self.tasks@.len() ==> task_row_wf(#[trigger] self.tasks@[i])
        &&& unique_by(self.planning_operations@, operation_key())
        &&& forall|i: int|
            0 <= i < self.planning_operations@.len() ==> (#[trigger] self.planning_operations@[i]).record.revision.value
                >= 1
        &&& unique_by(self.planning_records@, record_key())
    }
}

// ---- Lookups ---------------------------------------------------------------

pub(crate) fn find_goal(rows: &Vec<GoalRecord>, id: &str) -> (r: Option<usize>)
    ensures
        match r {
            Some(i) => i < rows@.len() && i == find_last(rows@, goal_key(), id@),
            None => find_last(rows@, goal_key(), id@) == -1,
        },
{
    let mut i: usize = rows.len();
    while i > 0
        invariant
            i <= rows@.len(),
            forall|j: int| i <= j < rows@.len() ==> (goal_key())(#[trigger] rows@[j]) != id@,
        decreases i,
    {
        i = i - 1;
        if str_eq(rows[i].id.as_str(), id) {
            proof {
                lemma_find_last_is(rows@, goal_key(), id@, i as int);
            }
            return Some(i);
        }
    }
    proof {
        lemma_find_last(rows@, goal_key(), id@);
    }
    None
}

pub(crate) fn find_graph(rows: &Vec<GraphRecord>, goal_id: &str) -> (r: Option<usize>)
    ensures
        match r {
            Some(i) => i < rows@.len() && i == find_last(rows@, graph_key(), goal_id@),
            None => find_last(rows@, graph_key(), goal_id@) == -1,
        },
{
    let mut i: usize = rows.len();
    while i > 0
        invariant
            i <= rows@.len(),
            forall|j: int| i <= j < rows@.len() ==> (graph_key())(#[trigger] rows@[j]) != goal_id@,
        decreases i,
    {
        i = i - 1;
        if str_eq(rows[i].goal_id.as_str(), goal_id) {
            proof {
                lemma_find_last_is(rows@, graph_key(), goal_id@, i as int);
            }
            return Some(i);
        }
    }
    proof {
        lemma_find_last(rows@, graph_key(), goal_id@);
    }
    None
}

pub(crate) fn find_task(rows: &Vec<TaskRecord>, id: &str) -> (r: Option<usize>)
    ensures
        match r {
            Some(i) => i < rows@.len() && i == find_last(rows@, task_key(), id@),
            None => find_last(rows@, task_key(), id@) == -1,
        },
{
    let mut i: usize = rows.len();
    while i > 0
        invariant
            i <= rows@.len(),
            forall|j: int| i <= j < rows@.len() ==> (task_key())(#[trigger] rows@[j]) != id@,
        decreases i,
    {
        i = i - 1;
        if str_eq(rows[i].id.as_str(), id) {
            proof {
                lemma_find_last_is(rows@, task_key(), id@, i as int);
            }
            return Some(i);
        }
    }
    proof {
        lemma_find_last(rows@, task_key(), id@);
    }
    None
}

fn find_operation(rows: &Vec<PlanningOperationRow>, id: &str) -> (r: Option<usize>)
    ensures
        match r {
            Some(i) => i < rows@.len() && i == find_last(rows@, operation_key(), id@),
            None => find_last(rows@, operation_key(), id@) == -1,
        },
{
    let mut i: usize = rows.len();
    while i > 0
        invariant
            i <= rows@.len(),
            forall|j: int| i <= j < rows@.len() ==> (operation_key())(#[trigger] rows@[j]) != id@,
        decreases i,
    {
        i = i - 1;
        if str_eq(rows[i].record.id.as_str(), id) {
            proof {
                lemma_find_last_is(rows@, operation_key(), id@, i as int);
            }
            return Some(i);
        }
    }
    proof {
        lemma_find_last(rows@, operation_key(), id@);
    }
    None
}

fn find_record(rows: &Vec<PlanningRecordRow>, id: &str) -> (r: Option<usize>)
    ensures
        match r {
            Some(i) => i < rows@.len() && i == find_last(rows@, record_key(), id@),
            None => find_last(rows@, record_key(), id@) == -1,
        },
{
    let mut i: usize = rows.len();
    while i > 0
        invariant
            i <= rows@.len(),
            forall|j: int| i <= j < rows@.len() ==> (record_key())(#[trigger] rows@[j]) != id@,
        decreases i,
    {
        i = i - 1;
        if str_eq(rows[i].planning_operation_id.as_str(), id) {
            proof {
                lemma_find_last_is(rows@, record_key(), id@, i as int);
            }
            return Some(i);
        }
    }
    proof {
        lemma_find_last(rows@, record_key(), id@);
    }
    None
}

fn has_goal_revision(rows: &Vec<GoalRevisionRow>, goal_id: &str, revision: i64) -> (r: bool)
    ensures
        r == has_key(rows@, goal_revision_key(), (goal_id@, revision)),
{
    let mut i: usize = 0;
    while i < rows.len()
        invariant
            i <= rows@.len(),
            forall|j: int| 0 <= j < i ==> (goal_revision_key())(#[trigger] rows@[j]) != (goal_id@, revision),
        decreases rows@.len() - i,
    {
        if rows[i].revision == revision && str_eq(rows[i].goal_id.as_str(), goal_id) {
            assert((goal_revision_key())(rows@[i as int]) == (goal_id@, revision));
            return true;
        }
        i = i + 1;
    }
    false
}

fn has_spec(rows: &Vec<TaskSpecRow>, digest: &[u8; 32]) -> (r: bool)
    ensures
        r == has_key(rows@, spec_key(), digest@),
{
    let mut i: usize = 0;
    while i < rows.len()
        invariant
            i <= rows@.len(),
            forall|j: int| 0 <= j < i ==> (spec_key())(#[trigger] rows@[j]) != digest@,
        decreases rows@.len() - i,
    {
        if bytes_eq(rows[i].digest.as_slice(), digest.as_slice()) {
            assert((spec_key())(rows@[i as int]) == digest@);
            return true;
        }
        i = i + 1;
    }
    false
}


impl GoalRecord {
    /// An equal copy of this record.
    pub fn copy(&self) -> (r: GoalRecord)
        ensures
            r == *self,
    {
        GoalRecord {
            id: self.id.clone(),
            phase: self.phase,
            current_revision: self.current_revision,
            revision: self.revision,
        }
    }
}

impl TaskRecord {
    /// An equal copy of this record.
    pub fn copy(&self) -> (r: TaskRecord)
        ensures
            r == *self,
    {
        TaskRecord {
            id: self.id.clone(),
            goal_id: self.goal_id.clone(),
            phase: self.phase,
            created_graph_revision: self.created_graph_revision,
            spec_digest: self.spec_digest,
            revision: self.revision,
            active_run_id: copy_text_option(&self.active_run_id),
        }
    }
}

impl PlanningOperationRecord {
    /// An equal copy of this record.
    pub fn copy(&self) -> (r: PlanningOperationRecord)
        ensures
            r == *self,
    {
        PlanningOperationRecord {
            id: self.id.clone(),
            goal_id: self.goal_id.clone(),
            goal_revision: self.goal_revision,
            expected_graph_revision: self.expected_graph_revision,
            configuration_activation_sequence: self.configuration_activation_sequence,
            planning_input_digest: self.planning_input_digest,
            state: self.state,
            revision: self.revision,
        }
    }
}

// ---- Readiness -------------------------------------------------------------

/// Whether an edge is active at graph revision `r`.
pub open spec fn edge_active(e: TaskGraphEdge, r: int) -> bool {
    &&& e.created_graph_revision <= r
    &&& match e.removed_graph_revision {
        None => true,
        Some(removed) => removed > r,
    }
}

/// Whether some stored Task has id `id` and has not Succeeded.
pub open spec fn unsucceeded_task(tasks: Seq<TaskRecord>, id: Seq<char>) -> bool {
    exists|i: int| 0 <= i < tasks.len() && (#[trigger] tasks[i]).id@ == id && !(tasks[i].phase is Succeeded)
}

/// Whether every active incoming `requires_success` dependency of `task_id`
/// at graph revision `r` names an upstream Task that has Succeeded.
pub open spec fn prerequisites_satisfied_spec(
    tasks: Seq<TaskRecord>,
    edges: Seq<TaskGraphEdge>,
    task_id: Seq<char>,
    r: int,
) -> bool {
    forall|i: int|
        0 <= i < edges.len() && (#[trigger] edges[i]).downstream_task_id@ == task_id && edge_active(edges[i], r)
            ==> !unsucceeded_task(tasks, edges[i].upstream_task_id@)
}

fn task_unsucceeded(tasks: &Vec<TaskRecord>, id: &str) -> (r: bool)
    ensures
        r == unsucceeded_task(tasks@, id@),
{
    let mut i: usize = 0;
    while i < tasks.len()
        invariant
            i <= tasks@.len(),
            forall|j: int| 0 <= j < i ==> !((#[trigger] tasks@[j]).id@ == id@ && !(tasks@[j].phase is Succeeded)),
        decreases tasks@.len() - i,
    {
        if str_eq(tasks[i].id.as_str(), id) && tasks[i].phase != TaskPhase::Succeeded {
            return true;
        }
        i = i + 1;
    }
    false
}

/// Whether every active incoming dependency of `task_id` is satisfied at
/// graph revision `graph_revision`: a downstream Task cannot become runnable
/// until each upstream Task is terminally Succeeded, and a Failed upstream is
/// never treated as satisfied.
pub fn prerequisites_satisfied(
    tasks: &Vec<TaskRecord>,
    edges: &Vec<TaskGraphEdge>,
    task_id: &str,
    graph_revision: i64,
) -> (r: bool)
    ensures
        r == prerequisites_satisfied_spec(tasks@, edges@, task_id@, graph_revision as int),
{
    let mut i: usize = 0;
    while i < edges.len()
        invariant
            i <= edges@.len(),
            forall|j: int|
                0 <= j < i && (#[trigger] edges@[j]).downstream_task_id@ == task_id@ && edge_active(
                    edges@[j],
                    graph_revision as int,
                ) ==> !unsucceeded_task(tasks@, edges@[j].upstream_task_id@),
        decreases edges@.len() - i,
    {
        let e = &edges[i];
        let active: bool = e.created_graph_revision <= graph_revision && match e.removed_graph_revision {
            None => true,
            Some(removed) => removed > graph_revision,
        };
        if active && str_eq(e.downstream_task_id.as_str(), task_id) && task_unsucceeded(
            tasks,
            e.upstream_task_id.as_str(),
        ) {
            return false;
        }
        i = i + 1;
    }
    true
}

// ---- Goal creation ----------------------------------------------------------

/// Creating Goal `goal_id` from `spec`: the Goal enters Planning at its first
/// revision, with its first immutable revision and an empty graph at
/// revision 0.
pub open spec fn goal_created(before: Store, after: Store, goal_id: Seq<char>, spec: GoalSpec, value: GoalRecord) -> bool {
    &&& value.id@ == goal_id && value.phase is Planning && value.current_revision == 1 && value.revision.value == 1
    &&& after.goals@ == before.goals@.push(value)
    &&& after.goal_revisions@.len() == before.goal_revisions@.len() + 1
    &&& after.goal_revisions@.drop_last() == before.goal_revisions@
    &&& after.goal_revisions@.last().goal_id@ == goal_id
    &&& after.goal_revisions@.last().revision == 1
    &&& after.goal_revisions@.last().content_digest@ == spec.digest@
    &&& after.goal_revisions@.last().canonical_json@ == spec.canonical_json@
    &&& after.task_graphs@.len() == before.task_graphs@.len() + 1
    &&& after.task_graphs@.drop_last() == before.task_graphs@
    &&& after.task_graphs@.last().goal_id@ == goal_id
    &&& after.task_graphs@.last().revision.value == 0
}

impl Store {
    /// Creates a Goal, its first immutable revision, and its empty graph,
    /// under the command kernel. The graph row starts at revision 0 so the
    /// first patch is an ordinary CAS. A Goal id already in use is refused by
    /// the table's key and nothing is created.
    pub fn create_goal(&mut self, command: &Command, goal_id: &str, spec: &GoalSpec) -> (r: Result<
        Committed<GoalRecord>,
        StoreError,
    >)
        requires
            old(self).wf(),
        ensures
            final(self).wf(),
            gate_outcome(*old(self), *final(self), *command, r),
            class_of(*old(self), *command) is Fresh ==> if has_key(old(self).goals@, goal_key(), goal_id@)
                || has_key(old(self).task_graphs@, graph_key(), goal_id@) || has_key(
                old(self).goal_revisions@,
                goal_revision_key(),
                (goal_id@, 1i64),
            ) {
                r matches Err(StoreError::ConstraintViolated(_)) && *final(self) == *old(self)
            } else {
                &&& r matches Ok(Committed::Executed { value, cursor })
                &&& goal_created(*old(self), *final(self), goal_id@, *spec, value)
                &&& command_recorded(*old(self), *final(self), *command, cursor)
                &&& (Store {
                    goals: old(self).goals,
                    goal_revisions: old(self).goal_revisions,
                    task_graphs: old(self).task_graphs,
                    events: old(self).events,
                    next_sequence: old(self).next_sequence,
                    commands: old(self).commands,
                    ..*final(self)
                }) == *old(self)
            },
    {
        match self.command_gate(command) {
            Err(e) => return Err(e),
            Ok(Gate::Replayed { cursor, recorded_at }) => {
                return Ok(Committed::Replayed { cursor, recorded_at });
            },
            Ok(Gate::Fresh) => {},
        }
        let ghost before = *self;
        let goal_taken: bool = find_goal(&self.goals, goal_id).is_some();
        let graph_taken: bool = find_graph(&self.task_graphs, goal_id).is_some();
        proof {
            lemma_find_last(self.goals@, goal_key(), goal_id@);
            lemma_find_last(self.task_graphs@, graph_key(), goal_id@);
        }
        if goal_taken || graph_taken || has_goal_revision(&self.goal_revisions, goal_id, 1) {
            return Err(StoreError::ConstraintViolated("a Goal with this id already exists".to_string()));
        }
        let value = GoalRecord {
            id: goal_id.to_owned(),
            phase: GoalPhase::Planning,
            current_revision: 1,
            revision: Revision { value: 1 },
        };
        let revision_row = GoalRevisionRow {
            goal_id: goal_id.to_owned(),
            revision: 1,
            content_digest: *spec.digest,
            canonical_json: spec.canonical_json.to_owned(),
        };
        let graph = GraphRecord { goal_id: goal_id.to_owned(), revision: Revision { value: 0 } };
        proof {
            lemma_unique_push(self.goals@, goal_key(), value);
            lemma_unique_push(self.goal_revisions@, goal_revision_key(), revision_row);
            lemma_unique_push(self.task_graphs@, graph_key(), graph);
            lemma_has_key_push_all(self.goals@, goal_key(), value);
        }
        self.goals.push(value.copy());
        self.goal_revisions.push(revision_row);
        self.task_graphs.push(graph);
        proof {
            assert(self.goal_revisions@.drop_last() =~= before.goal_revisions@);
            assert(self.task_graphs@.drop_last() =~= before.task_graphs@);
            assert forall|i: int| 0 <= i < self.goals@.len() implies (#[trigger] self.goals@[i]).revision.value >= 1 by {
                if i < before.goals@.len() {
                    assert(self.goals@[i] == before.goals@[i]);
                }
            }
            assert forall|i: int| 0 <= i < self.task_graphs@.len() implies (#[trigger] self.task_graphs@[i]).revision.value
                >= 0 by {
                if i < before.task_graphs@.len() {
                    assert(self.task_graphs@[i] == before.task_graphs@[i]);
                }
            }
        }
        proof {
            lemma_targets_kept(before, *self);
        }
        let ghost mid = *self;
        assert(class_of(mid, *command) is Fresh) by {
            assert(mid.commands == before.commands);
        }
        let cursor = self.record_command(command);
        Ok(Committed::Executed { value, cursor })
    }
}

// ---- Direct planning ---------------------------------------------------------

/// Why recording a planning decision is refused by the schema, if it is.
pub open spec fn planning_refused(s: Store, d: PlanningDecision) -> bool {
    ||| has_key(s.planning_operations@, operation_key(), d.operation_id@)
    ||| has_key(s.planning_records@, record_key(), d.operation_id@)
    ||| !has_key(s.goal_revisions@, goal_revision_key(), (d.goal_id@, d.goal_revision))
    ||| d.trigger_kind@ != "initial"@
    ||| d.expected_graph_revision < 0
}

/// The operation row a planning decision records.
pub open spec fn planned_row(d: PlanningDecision, row: PlanningOperationRow) -> bool {
    &&& row.record.id@ == d.operation_id@
    &&& row.record.goal_id@ == d.goal_id@
    &&& row.record.goal_revision == d.goal_revision
    &&& row.record.expected_graph_revision == d.expected_graph_revision
    &&& row.record.configuration_activation_sequence == d.configuration_activation_sequence
    &&& row.record.planning_input_digest == d.planning_input_digest
    &&& row.record.state is Planned
    &&& row.record.revision.value == 1
    &&& row.trigger_kind@ == d.trigger_kind@
    &&& row.planner_implementation@ == d.planner_implementation@
    &&& row.planner_version@ == d.planner_version@
}

impl Store {
    /// Records one DIRECT planning decision and its immutable proposal, under
    /// the command kernel. This commits evidence and grants no authority to
    /// mutate the graph.
    pub fn record_direct_planning(
        &mut self,
        command: &Command,
        decision: &PlanningDecision,
        proposal: &ProposalRecord,
    ) -> (r: Result<Committed<PlanningOperationRecord>, StoreError>)
        requires
            old(self).wf(),
        ensures
            final(self).wf(),
            gate_outcome(*old(self), *final(self), *command, r),
            class_of(*old(self), *command) is Fresh ==> if planning_refused(*old(self), *decision) {
                r matches Err(StoreError::ConstraintViolated(_)) && *final(self) == *old(self)
            } else {
                let row = final(self).planning_operations@.last();
                let rec = final(self).planning_records@.last();
                &&& r matches Ok(Committed::Executed { value, cursor })
                &&& value == row.record
                &&& planned_row(*decision, row)
                &&& final(self).planning_operations@ == old(self).planning_operations@.push(row)
                &&& final(self).planning_records@ == old(self).planning_records@.push(rec)
                &&& rec.planning_operation_id@ == decision.operation_id@
                &&& rec.proposal_digest == proposal.digest
                &&& rec.canonical_proposal@ == proposal.canonical@
                &&& rec.normalization_provenance@ == proposal.normalization_provenance@
                &&& command_recorded(*old(self), *final(self), *command, cursor)
                &&& (Store {
                    planning_operations: old(self).planning_operations,
                    planning_records: old(self).planning_records,
                    events: old(self).events,
                    next_sequence: old(self).next_sequence,
                    commands: old(self).commands,
                    ..*final(self)
                }) == *old(self)
            },
    {
        match self.command_gate(command) {
            Err(e) => return Err(e),
            Ok(Gate::Replayed { cursor, recorded_at }) => {
                return Ok(Committed::Replayed { cursor, recorded_at });
            },
            Ok(Gate::Fresh) => {},
        }
        let ghost before = *self;
        let op_taken: bool = find_operation(&self.planning_operations, decision.operation_id).is_some();
        let rec_taken: bool = find_record(&self.planning_records, decision.operation_id).is_some();
        proof {
            lemma_find_last(self.planning_operations@, operation_key(), decision.operation_id@);
            lemma_find_last(self.planning_records@, record_key(), decision.operation_id@);
        }
        if op_taken || rec_taken || !has_goal_revision(&self.goal_revisions, decision.goal_id, decision.goal_revision)
            || !str_eq(decision.trigger_kind, "initial") || decision.expected_graph_revision < 0 {
            return Err(
                StoreError::ConstraintViolated("the planning decision breaks a stored constraint".to_string()),
            );
        }
        let record = PlanningOperationRecord {
            id: decision.operation_id.to_owned(),
            goal_id: decision.goal_id.to_owned(),
            goal_revision: decision.goal_revision,
            expected_graph_revision: decision.expected_graph_revision,
            configuration_activation_sequence: decision.configuration_activation_sequence,
            planning_input_digest: decision.planning_input_digest,
            state: PlanningState::Planned,
            revision: Revision { value: 1 },
        };
        let row = PlanningOperationRow {
            record: record.copy(),
            trigger_kind: decision.trigger_kind.to_owned(),
            planner_implementation: decision.planner_implementation.to_owned(),
            planner_version: decision.planner_version.to_owned(),
        };
        let rec = PlanningRecordRow {
            planning_operation_id: decision.operation_id.to_owned(),
            proposal_digest: proposal.digest,
            canonical_proposal: proposal.canonical.to_owned(),
            normalization_provenance: proposal.normalization_provenance.to_owned(),
        };
        proof {
            lemma_unique_push(self.planning_operations@, operation_key(), row);
            lemma_unique_push(self.planning_records@, record_key(), rec);
        }
        self.planning_operations.push(row);
        self.planning_records.push(rec);
        proof {
            assert forall|i: int| 0 <= i < self.planning_operations@.len() implies (
            #[trigger] self.planning_operations@[i]).record.revision.value >= 1 by {
                if i < before.planning_operations@.len() {
                    assert(self.planning_operations@[i] == before.planning_operations@[i]);
                }
            }
        }
        let ghost mid = *self;
        assert(class_of(mid, *command) is Fresh) by {
            assert(mid.commands == before.commands);
        }
        let cursor = self.record_command(command);
        Ok(Committed::Executed { value: record, cursor })
    }
}

// ---- Materialization ----------------------------------------------------------

/// Why materializing a plan refuses, or that it may commit.
pub enum MaterializeDecision {
    /// The planning operation does not exist.
    NoOperation,
    /// The operation is no longer `Planned`: it materializes at most once.
    Spent(i64),
    /// The operation's Goal does not exist.
    NoGoal,
    /// The Goal revision the planner observed is no longer current.
    GoalMoved(i64),
    /// The plan was validated against another Goal revision.
    PlanMismatch,
    /// The plan was validated against Goal content that is not the stored
    /// revision's.
    GoalContentMismatch,
    /// The plan is not the proposal the operation recorded.
    ProposalMismatch,
    /// The Goal has no TaskGraph.
    NoGraph,
    /// The graph revision moved since planning.
    GraphMoved(i64),
    /// Nothing is active, so current policy cannot be rechecked.
    NoActiveConfiguration,
    /// Another configuration revision became active since planning.
    ConfigurationMoved(i64),
    /// A Task with this id already exists.
    TaskTaken,
    /// A revision the patch advances has no room left.
    Exhausted,
    /// Every precondition holds.
    Admitted,
}

/// Whether the stored revision `revision` of Goal `goal_id` has content
/// digest `digest`.
pub open spec fn goal_content_matches(s: Store, goal_id: Seq<char>, revision: i64, digest: [u8; 32]) -> bool {
    let ri = find_last(s.goal_revisions@, goal_revision_key(), (goal_id, revision));
    ri >= 0 && s.goal_revisions@[ri].content_digest@ == digest@
}

/// Whether operation `operation_id` recorded the proposal with digest
/// `digest`.
pub open spec fn proposal_matches(s: Store, operation_id: Seq<char>, digest: [u8; 32]) -> bool {
    let pi = find_last(s.planning_records@, record_key(), operation_id);
    pi >= 0 && s.planning_records@[pi].proposal_digest@ == digest@
}

/// The decision materializing `plan` for `operation_id` as Task `task_id`
/// reaches on `s`: each precondition the operation froze is compared against
/// current authoritative state, in order.
pub open spec fn materialize_decision(s: Store, operation_id: Seq<char>, task_id: Seq<char>, plan: MaterializablePlan) -> MaterializeDecision {
    let oi = find_last(s.planning_operations@, operation_key(), operation_id);
    let op = s.planning_operations@[oi].record;
    let gi = find_last(s.goals@, goal_key(), op.goal_id@);
    let goal = s.goals@[gi];
    let ti = find_last(s.task_graphs@, graph_key(), op.goal_id@);
    let graph = s.task_graphs@[ti];
    if oi < 0 {
        MaterializeDecision::NoOperation
    } else if !(op.state is Planned) {
        MaterializeDecision::Spent(op.revision.value)
    } else if gi < 0 {
        MaterializeDecision::NoGoal
    } else if goal.current_revision != op.goal_revision {
        MaterializeDecision::GoalMoved(goal.current_revision)
    } else if plan.goal_revision != op.goal_revision {
        MaterializeDecision::PlanMismatch
    } else if !goal_content_matches(s, op.goal_id@, op.goal_revision, plan.goal_content_digest) {
        MaterializeDecision::GoalContentMismatch
    } else if !proposal_matches(s, operation_id, plan.proposal_digest) {
        MaterializeDecision::ProposalMismatch
    } else if ti < 0 {
        MaterializeDecision::NoGraph
    } else if graph.revision.value != op.expected_graph_revision {
        MaterializeDecision::GraphMoved(graph.revision.value)
    } else if s.active_configuration.activation_sequence is None {
        MaterializeDecision::NoActiveConfiguration
    } else if s.active_configuration.activation_sequence->0 != op.configuration_activation_sequence {
        MaterializeDecision::ConfigurationMoved(s.active_configuration.activation_sequence->0)
    } else if has_key(s.tasks@, task_key(), task_id) {
        MaterializeDecision::TaskTaken
    } else if graph.revision.value >= i64::MAX || goal.revision.value >= i64::MAX || op.revision.value >= i64::MAX {
        MaterializeDecision::Exhausted
    } else {
        MaterializeDecision::Admitted
    }
}

/// The spec table after storing `plan`'s spec for Goal `goal_id`, where a
/// spec already stored under its digest is left alone.
pub open spec fn specs_after(specs: Seq<TaskSpecRow>, goal_id: Seq<char>, plan: MaterializablePlan, row: TaskSpecRow) -> bool {
    if has_key(specs, spec_key(), plan.spec_digest@) {
        true
    } else {
        &&& row.digest == plan.spec_digest
        &&& row.goal_id@ == goal_id
        &&& row.goal_revision == plan.goal_revision
        &&& row.canonical_json@ == plan.spec_canonical_json@
        &&& row.acceptance_digest == plan.acceptance_digest
        &&& row.evaluator_registry_digest == plan.evaluator_registry_digest
        &&& row.configuration_activation_sequence == plan.configuration_activation_sequence
        &&& row.outputs@ == plan.outputs@
    }
}

/// An admitted materialization's effect: the spec stored, the Task created
/// at the next graph revision in the phase its prerequisites give it, the
/// graph patched by CAS, a Planning Goal activated (the Goal phase after the
/// patch is reported), and the operation spent.
pub open spec fn materialized(
    before: Store,
    after: Store,
    operation_id: Seq<char>,
    task_id: Seq<char>,
    plan: MaterializablePlan,
    value: MaterializedPlan,
) -> bool {
    let oi = find_last(before.planning_operations@, operation_key(), operation_id);
    let op = before.planning_operations@[oi];
    let gi = find_last(before.goals@, goal_key(), op.record.goal_id@);
    let goal = before.goals@[gi];
    let ti = find_last(before.task_graphs@, graph_key(), op.record.goal_id@);
    let next = before.task_graphs@[ti].revision.value + 1;
    let task = value.task;
    &&& task.id@ == task_id
    &&& task.goal_id == op.record.goal_id
    &&& task.phase == (if prerequisites_satisfied_spec(before.tasks@, before.task_graph_edges@, task_id, next) {
        TaskPhase::Ready
    } else {
        TaskPhase::Pending
    })
    &&& task.created_graph_revision == next
    &&& task.spec_digest == plan.spec_digest
    &&& task.revision.value == 1
    &&& task.active_run_id is None
    &&& value.graph_revision == next
    &&& value.goal_phase == after.goals@[gi].phase
    &&& after.tasks@ == before.tasks@.push(task)
    &&& if has_key(before.task_specs@, spec_key(), plan.spec_digest@) {
        after.task_specs@ == before.task_specs@
    } else {
        &&& after.task_specs@.len() == before.task_specs@.len() + 1
        &&& after.task_specs@.drop_last() == before.task_specs@
        &&& specs_after(before.task_specs@, op.record.goal_id@, plan, after.task_specs@.last())
    }
    &&& after.task_graphs@ == before.task_graphs@.update(
        ti,
        GraphRecord { goal_id: before.task_graphs@[ti].goal_id, revision: Revision { value: next as i64 } },
    )
    &&& after.goals@ == if goal.phase is Planning {
        before.goals@.update(
            gi,
            GoalRecord { phase: GoalPhase::Active, revision: Revision { value: (goal.revision.value + 1) as i64 }, ..goal },
        )
    } else {
        before.goals@
    }
    &&& after.planning_operations@ == before.planning_operations@.update(
        oi,
        PlanningOperationRow {
            record: PlanningOperationRecord {
                state: PlanningState::Materialized,
                revision: Revision { value: (op.record.revision.value + 1) as i64 },
                ..op.record
            },
            ..op
        },
    )
}

impl Store {
    /// Materializes a validated plan into its Goal's TaskGraph, under the
    /// command kernel.
    ///
    /// Every precondition the PlanningOperation froze is re-read and
    /// compared against current authoritative state: the operation is still
    /// `Planned`, the Goal revision and graph revision are the frozen ones,
    /// and the frozen ConfigurationRevision is still active. A refusal
    /// mutates nothing; the PlanningRecord survives as provenance.
    pub fn materialize_plan(
        &mut self,
        command: &Command,
        operation_id: &str,
        task_id: &str,
        plan: &MaterializablePlan,
    ) -> (r: Result<Committed<MaterializedPlan>, StoreError>)
        requires
            old(self).wf(),
        ensures
            final(self).wf(),
            gate_outcome(*old(self), *final(self), *command, r),
            class_of(*old(self), *command) is Fresh ==> {
                let oi = find_last(old(self).planning_operations@, operation_key(), operation_id@);
                let op = old(self).planning_operations@[oi].record;
                match materialize_decision(*old(self), operation_id@, task_id@, *plan) {
                    MaterializeDecision::NoOperation => r matches Err(StoreError::InvariantViolated(_))
                        && *final(self) == *old(self),
                    MaterializeDecision::Spent(rev) => (r matches Err(StoreError::RevisionConflict { table, id, expected, actual })
                        && table@ == "planning_operations"@ && id@ == operation_id@ && expected == rev
                        && actual == Some(rev) && *final(self) == *old(self)),
                    MaterializeDecision::NoGoal => r matches Err(StoreError::InvariantViolated(_))
                        && *final(self) == *old(self),
                    MaterializeDecision::GoalMoved(current) => (r matches Err(StoreError::RevisionConflict { table, id, expected, actual })
                        && table@ == "goal_revisions"@ && id@ == op.goal_id@ && expected == op.goal_revision
                        && actual == Some(current) && *final(self) == *old(self)),
                    MaterializeDecision::PlanMismatch => r matches Err(StoreError::InvariantViolated(_))
                        && *final(self) == *old(self),
                    MaterializeDecision::GoalContentMismatch => r matches Err(StoreError::InvariantViolated(_))
                        && *final(self) == *old(self),
                    MaterializeDecision::ProposalMismatch => r matches Err(StoreError::InvariantViolated(_))
                        && *final(self) == *old(self),
                    MaterializeDecision::NoGraph => r matches Err(StoreError::InvariantViolated(_))
                        && *final(self) == *old(self),
                    MaterializeDecision::GraphMoved(current) => (r matches Err(StoreError::RevisionConflict { table, id, expected, actual })
                        && table@ == "task_graphs"@ && id@ == op.goal_id@ && expected == op.expected_graph_revision
                        && actual == Some(current) && *final(self) == *old(self)),
                    MaterializeDecision::NoActiveConfiguration => r matches Err(StoreError::InvariantViolated(_))
                        && *final(self) == *old(self),
                    MaterializeDecision::ConfigurationMoved(active) => (r matches Err(StoreError::RevisionConflict { table, id, expected, actual })
                        && table@ == "active_configuration"@ && id@ == "singleton"@
                        && expected == op.configuration_activation_sequence && actual == Some(active)
                        && *final(self) == *old(self)),
                    MaterializeDecision::TaskTaken => r matches Err(StoreError::ConstraintViolated(_))
                        && *final(self) == *old(self),
                    MaterializeDecision::Exhausted => r matches Err(StoreError::InvariantViolated(_))
                        && *final(self) == *old(self),
                    MaterializeDecision::Admitted => {
                        &&& r matches Ok(Committed::Executed { value, cursor })
                        &&& materialized(*old(self), *final(self), operation_id@, task_id@, *plan, value)
                        &&& command_recorded(*old(self), *final(self), *command, cursor)
                        &&& (Store {
                            task_specs: old(self).task_specs,
                            tasks: old(self).tasks,
                            task_graphs: old(self).task_graphs,
                            goals: old(self).goals,
                            planning_operations: old(self).planning_operations,
                            events: old(self).events,
                            next_sequence: old(self).next_sequence,
                            commands: old(self).commands,
                            ..*final(self)
                        }) == *old(self)
                    },
                }
            },
    {
        match self.command_gate(command) {
            Err(e) => return Err(e),
            Ok(Gate::Replayed { cursor, recorded_at }) => {
                return Ok(Committed::Replayed { cursor, recorded_at });
            },
            Ok(Gate::Fresh) => {},
        }
        let ghost before = *self;
        let value = match self.apply_materialization(operation_id, task_id, plan) {
            Ok(v) => v,
            Err(e) => return Err(e),
        };
        let ghost mid = *self;
        assert(class_of(mid, *command) is Fresh) by {
            assert(mid.commands == before.commands);
            assert(mid.restore_generation == before.restore_generation);
            assert(mid.next_sequence == before.next_sequence);
        }
        let cursor = self.record_command(command);
        Ok(Committed::Executed { value, cursor })
    }

    fn apply_materialization(&mut self, operation_id: &str, task_id: &str, plan: &MaterializablePlan) -> (r: Result<
        MaterializedPlan,
        StoreError,
    >)
        requires
            old(self).wf(),
        ensures
            final(self).wf(),
            ({
                let oi = find_last(old(self).planning_operations@, operation_key(), operation_id@);
                let op = old(self).planning_operations@[oi].record;
                match materialize_decision(*old(self), operation_id@, task_id@, *plan) {
                    MaterializeDecision::NoOperation => r matches Err(StoreError::InvariantViolated(_))
                        && *final(self) == *old(self),
                    MaterializeDecision::Spent(rev) => (r matches Err(StoreError::RevisionConflict { table, id, expected, actual })
                        && table@ == "planning_operations"@ && id@ == operation_id@ && expected == rev
                        && actual == Some(rev) && *final(self) == *old(self)),
                    MaterializeDecision::NoGoal => r matches Err(StoreError::InvariantViolated(_))
                        && *final(self) == *old(self),
                    MaterializeDecision::GoalMoved(current) => (r matches Err(StoreError::RevisionConflict { table, id, expected, actual })
                        && table@ == "goal_revisions"@ && id@ == op.goal_id@ && expected == op.goal_revision
                        && actual == Some(current) && *final(self) == *old(self)),
                    MaterializeDecision::PlanMismatch => r matches Err(StoreError::InvariantViolated(_))
                        && *final(self) == *old(self),
                    MaterializeDecision::GoalContentMismatch => r matches Err(StoreError::InvariantViolated(_))
                        && *final(self) == *old(self),
                    MaterializeDecision::ProposalMismatch => r matches Err(StoreError::InvariantViolated(_))
                        && *final(self) == *old(self),
                    MaterializeDecision::NoGraph => r matches Err(StoreError::InvariantViolated(_))
                        && *final(self) == *old(self),
                    MaterializeDecision::GraphMoved(current) => (r matches Err(StoreError::RevisionConflict { table, id, expected, actual })
                        && table@ == "task_graphs"@ && id@ == op.goal_id@ && expected == op.expected_graph_revision
                        && actual == Some(current) && *final(self) == *old(self)),
                    MaterializeDecision::NoActiveConfiguration => r matches Err(StoreError::InvariantViolated(_))
                        && *final(self) == *old(self),
                    MaterializeDecision::ConfigurationMoved(active) => (r matches Err(StoreError::RevisionConflict { table, id, expected, actual })
                        && table@ == "active_configuration"@ && id@ == "singleton"@
                        && expected == op.configuration_activation_sequence && actual == Some(active)
                        && *final(self) == *old(self)),
                    MaterializeDecision::TaskTaken => r matches Err(StoreError::ConstraintViolated(_))
                        && *final(self) == *old(self),
                    MaterializeDecision::Exhausted => r matches Err(StoreError::InvariantViolated(_))
                        && *final(self) == *old(self),
                    MaterializeDecision::Admitted => {
                        &&& r matches Ok(value)
                        &&& materialized(*old(self), *final(self), operation_id@, task_id@, *plan, value)
                        &&& (Store {
                            task_specs: old(self).task_specs,
                            tasks: old(self).tasks,
                            task_graphs: old(self).task_graphs,
                            goals: old(self).goals,
                            planning_operations: old(self).planning_operations,
                            ..*final(self)
                        }) == *old(self)
                    },
                }
            }),
    {
        let ghost before = *self;
        // 1. The frozen decision.
        let oi: usize = match find_operation(&self.planning_operations, operation_id) {
            Some(i) => i,
            None => {
                return Err(StoreError::InvariantViolated("the planning operation does not exist".to_string()));
            },
        };
        let op = self.planning_operations[oi].record.copy();
        if op.state != PlanningState::Planned {
            return Err(
                StoreError::RevisionConflict {
                    table: "planning_operations",
                    id: operation_id.to_owned(),
                    expected: op.revision.value,
                    actual: Some(op.revision.value),
                },
            );
        }
        // 2. The Goal, re-read.
        let gi: usize = match find_goal(&self.goals, op.goal_id.as_str()) {
            Some(i) => i,
            None => {
                return Err(StoreError::InvariantViolated("the operation's Goal does not exist".to_string()));
            },
        };
        let goal = self.goals[gi].copy();
        if goal.current_revision != op.goal_revision {
            return Err(
                StoreError::RevisionConflict {
                    table: "goal_revisions",
                    id: op.goal_id.clone(),
                    expected: op.goal_revision,
                    actual: Some(goal.current_revision),
                },
            );
        }
        if plan.goal_revision != op.goal_revision {
            return Err(
                StoreError::InvariantViolated(
                    "the plan was validated against another Goal revision than the operation froze".to_string(),
                ),
            );
        }
        let content_matches: bool = match find_goal_revision(&self.goal_revisions, op.goal_id.as_str(), op.goal_revision) {
            Some(ri) => bytes_eq(
                self.goal_revisions[ri].content_digest.as_slice(),
                plan.goal_content_digest.as_slice(),
            ),
            None => false,
        };
        if !content_matches {
            return Err(
                StoreError::InvariantViolated(
                    "the plan was validated against a Goal that is not the stored revision".to_string(),
                ),
            );
        }
        let proposal_recorded: bool = match find_record(&self.planning_records, operation_id) {
            Some(pi) => bytes_eq(self.planning_records[pi].proposal_digest.as_slice(), plan.proposal_digest.as_slice()),
            None => false,
        };
        if !proposal_recorded {
            let mut detail: String = "the plan is not the proposal recorded for operation ".to_owned();
            detail.append(operation_id);
            return Err(StoreError::InvariantViolated(detail));
        }
        // 3. The graph revision, re-read.
        let ti: usize = match find_graph(&self.task_graphs, op.goal_id.as_str()) {
            Some(i) => i,
            None => {
                return Err(StoreError::InvariantViolated("the Goal has no task graph".to_string()));
            },
        };
        let current_graph: i64 = self.task_graphs[ti].revision.value;
        if current_graph != op.expected_graph_revision {
            return Err(
                StoreError::RevisionConflict {
                    table: "task_graphs",
                    id: op.goal_id.clone(),
                    expected: op.expected_graph_revision,
                    actual: Some(current_graph),
                },
            );
        }
        // 4. Current policy: the frozen configuration must still be active.
        let active: i64 = match self.active_configuration.activation_sequence {
            None => {
                return Err(
                    StoreError::InvariantViolated("no active configuration; cannot materialize a plan".to_string()),
                );
            },
            Some(a) => a,
        };
        if active != op.configuration_activation_sequence {
            return Err(
                StoreError::RevisionConflict {
                    table: "active_configuration",
                    id: "singleton".to_string(),
                    expected: op.configuration_activation_sequence,
                    actual: Some(active),
                },
            );
        }
        let task_taken: bool = find_task(&self.tasks, task_id).is_some();
        proof {
            lemma_find_last(self.tasks@, task_key(), task_id@);
        }
        if task_taken {
            return Err(StoreError::ConstraintViolated("a Task with this id already exists".to_string()));
        }
        if current_graph >= i64::MAX || goal.revision.value >= i64::MAX || op.revision.value >= i64::MAX {
            return Err(StoreError::InvariantViolated("a revision the graph patch advances is exhausted".to_string()));
        }
        // 5. Preconditions hold: the immutable spec, then the Task.
        let next: i64 = current_graph + 1;
        if !has_spec(&self.task_specs, &plan.spec_digest) {
            let spec_row = TaskSpecRow {
                digest: plan.spec_digest,
                goal_id: op.goal_id.clone(),
                goal_revision: plan.goal_revision,
                canonical_json: plan.spec_canonical_json.to_owned(),
                acceptance_digest: plan.acceptance_digest,
                evaluator_registry_digest: plan.evaluator_registry_digest,
                configuration_activation_sequence: plan.configuration_activation_sequence,
                outputs: copy_outputs(plan.outputs),
            };
            proof {
                lemma_unique_push(self.task_specs@, spec_key(), spec_row);
            }
            self.task_specs.push(spec_row);
            proof {
                assert(self.task_specs@.drop_last() =~= before.task_specs@);
            }
        }
        let phase = if prerequisites_satisfied(&self.tasks, &self.task_graph_edges, task_id, next) {
            TaskPhase::Ready
        } else {
            TaskPhase::Pending
        };
        let task = TaskRecord {
            id: task_id.to_owned(),
            goal_id: op.goal_id.clone(),
            phase,
            created_graph_revision: next,
            spec_digest: plan.spec_digest,
            revision: Revision { value: 1 },
            active_run_id: None,
        };
        proof {
            lemma_unique_push(self.tasks@, task_key(), task);
            lemma_has_key_push_all(self.tasks@, task_key(), task);
        }
        self.tasks.push(task.copy());
        // 6. The graph patch: a CAS against the revision just re-read.
        let graph = GraphRecord { goal_id: self.task_graphs[ti].goal_id.clone(), revision: Revision { value: next } };
        proof {
            lemma_unique_update(self.task_graphs@, graph_key(), ti as int, graph);
        }
        self.task_graphs.set(ti, graph);
        // 7. A coherent graph takes the Goal out of Planning.
        let goal_phase: GoalPhase = if goal.phase == GoalPhase::Planning {
            GoalPhase::Active
        } else {
            goal.phase
        };
        if goal.phase == GoalPhase::Planning {
            let activated = GoalRecord {
                id: goal.id.clone(),
                phase: GoalPhase::Active,
                current_revision: goal.current_revision,
                revision: Revision { value: goal.revision.value + 1 },
            };
            proof {
                lemma_unique_update(self.goals@, goal_key(), gi as int, activated);
                lemma_has_key_update_all(self.goals@, goal_key(), gi as int, activated);
            }
            self.goals.set(gi, activated);
        }
        // 8. The decision is spent.
        let spent = PlanningOperationRow {
            record: PlanningOperationRecord {
                id: op.id.clone(),
                goal_id: op.goal_id.clone(),
                goal_revision: op.goal_revision,
                expected_graph_revision: op.expected_graph_revision,
                configuration_activation_sequence: op.configuration_activation_sequence,
                planning_input_digest: op.planning_input_digest,
                state: PlanningState::Materialized,
                revision: Revision { value: op.revision.value + 1 },
            },
            trigger_kind: self.planning_operations[oi].trigger_kind.clone(),
            planner_implementation: self.planning_operations[oi].planner_implementation.clone(),
            planner_version: self.planning_operations[oi].planner_version.clone(),
        };
        proof {
            lemma_unique_update(self.planning_operations@, operation_key(), oi as int, spent);
        }
        self.planning_operations.set(oi, spent);
        proof {
            assert forall|i: int| 0 <= i < self.tasks@.len() implies task_row_wf(#[trigger] self.tasks@[i]) by {
                if i < before.tasks@.len() {
                    assert(self.tasks@[i] == before.tasks@[i]);
                }
            }
            assert forall|i: int| 0 <= i < self.goals@.len() implies (#[trigger] self.goals@[i]).revision.value >= 1 by {
                if i != gi {
                    assert(self.goals@[i] == before.goals@[i]);
                }
            }
            assert forall|i: int| 0 <= i < self.task_graphs@.len() implies (#[trigger] self.task_graphs@[i]).revision.value
                >= 0 by {
                if i != ti {
                    assert(self.task_graphs@[i] == before.task_graphs@[i]);
                }
            }
            assert forall|i: int| 0 <= i < self.planning_operations@.len() implies (
            #[trigger] self.planning_operations@[i]).record.revision.value >= 1 by {
                if i != oi {
                    assert(self.planning_operations@[i] == before.planning_operations@[i]);
                }
            }
            lemma_targets_kept(before, *self);
        }
        Ok(MaterializedPlan { task, graph_revision: next, goal_phase })
    }
}

// ---- Reads --------------------------------------------------------------------

fn find_goal_revision(rows: &Vec<GoalRevisionRow>, goal_id: &str, revision: i64) -> (r: Option<usize>)
    ensures
        match r {
            Some(i) => i < rows@.len() && i == find_last(rows@, goal_revision_key(), (goal_id@, revision)),
            None => find_last(rows@, goal_revision_key(), (goal_id@, revision)) == -1,
        },
{
    let ghost k = (goal_id@, revision);
    let mut i: usize = rows.len();
    while i > 0
        invariant
            i <= rows@.len(),
            k == (goal_id@, revision),
            forall|j: int| i <= j < rows@.len() ==> (goal_revision_key())(#[trigger] rows@[j]) != k,
        decreases i,
    {
        i = i - 1;
        if rows[i].revision == revision && str_eq(rows[i].goal_id.as_str(), goal_id) {
            proof {
                lemma_find_last_is(rows@, goal_revision_key(), k, i as int);
            }
            return Some(i);
        }
    }
    proof {
        lemma_find_last(rows@, goal_revision_key(), k);
    }
    None
}

pub(crate) fn find_spec_row(rows: &Vec<TaskSpecRow>, d: &[u8; 32]) -> (r: Option<usize>)
    ensures
        match r {
            Some(i) => i < rows@.len() && i == find_last(rows@, spec_key(), d@),
            None => find_last(rows@, spec_key(), d@) == -1,
        },
{
    let mut i: usize = rows.len();
    while i > 0
        invariant
            i <= rows@.len(),
            forall|j: int| i <= j < rows@.len() ==> (spec_key())(#[trigger] rows@[j]) != d@,
        decreases i,
    {
        i = i - 1;
        if bytes_eq(rows[i].digest.as_slice(), d.as_slice()) {
            proof {
                lemma_find_last_is(rows@, spec_key(), d@, i as int);
            }
            return Some(i);
        }
    }
    proof {
        lemma_find_last(rows@, spec_key(), d@);
    }
    None
}

impl Store {
    /// The mutable Goal row, if the Goal exists.
    pub fn goal(&self, goal_id: &str) -> (r: Result<Option<GoalRecord>, StoreError>)
        ensures
            ({
                let i = find_last(self.goals@, goal_key(), goal_id@);
                r == Ok::<Option<GoalRecord>, StoreError>(if i >= 0 { Some(self.goals@[i]) } else { None })
            }),
    {
        match find_goal(&self.goals, goal_id) {
            Some(i) => Ok(Some(self.goals[i].copy())),
            None => Ok(None),
        }
    }

    /// The canonical JSON of one immutable Goal revision.
    pub fn goal_revision_json(&self, goal_id: &str, revision: i64) -> (r: Result<Option<String>, StoreError>)
        ensures
            ({
                let i = find_last(self.goal_revisions@, goal_revision_key(), (goal_id@, revision));
                match r {
                    Ok(Some(j)) => i >= 0 && j@ == self.goal_revisions@[i].canonical_json@,
                    Ok(None) => i < 0,
                    Err(_) => false,
                }
            }),
    {
        match find_goal_revision(&self.goal_revisions, goal_id, revision) {
            Some(i) => Ok(Some(self.goal_revisions[i].canonical_json.clone())),
            None => Ok(None),
        }
    }

    /// The Goal's TaskGraph, if the Goal exists.
    pub fn task_graph(&self, goal_id: &str) -> (r: Result<Option<GraphRecord>, StoreError>)
        ensures
            ({
                let i = find_last(self.task_graphs@, graph_key(), goal_id@);
                match r {
                    Ok(Some(g)) => i >= 0 && g.goal_id@ == goal_id@ && g.revision == self.task_graphs@[i].revision,
                    Ok(None) => i < 0,
                    Err(_) => false,
                }
            }),
    {
        match find_graph(&self.task_graphs, goal_id) {
            Some(i) => Ok(Some(GraphRecord { goal_id: goal_id.to_owned(), revision: self.task_graphs[i].revision })),
            None => Ok(None),
        }
    }

    /// A materialized Task, if it exists.
    pub fn task(&self, task_id: &str) -> (r: Result<Option<TaskRecord>, StoreError>)
        ensures
            ({
                let i = find_last(self.tasks@, task_key(), task_id@);
                r == Ok::<Option<TaskRecord>, StoreError>(if i >= 0 { Some(self.tasks@[i]) } else { None })
            }),
    {
        match find_task(&self.tasks, task_id) {
            Some(i) => Ok(Some(self.tasks[i].copy())),
            None => Ok(None),
        }
    }

    /// The canonical JSON of one immutable Task spec, by digest.
    pub fn task_spec_json(&self, digest: &[u8; 32]) -> (r: Result<Option<String>, StoreError>)
        ensures
            ({
                let i = find_last(self.task_specs@, spec_key(), digest@);
                match r {
                    Ok(Some(j)) => i >= 0 && j@ == self.task_specs@[i].canonical_json@,
                    Ok(None) => i < 0,
                    Err(_) => false,
                }
            }),
    {
        match find_spec_row(&self.task_specs, digest) {
            Some(i) => Ok(Some(self.task_specs[i].canonical_json.clone())),
            None => Ok(None),
        }
    }

    /// The durable planning decision, if it exists.
    pub fn planning_operation(&self, operation_id: &str) -> (r: Result<Option<PlanningOperationRecord>, StoreError>)
        ensures
            ({
                let i = find_last(self.planning_operations@, operation_key(), operation_id@);
                r == Ok::<Option<PlanningOperationRecord>, StoreError>(
                    if i >= 0 { Some(self.planning_operations@[i].record) } else { None },
                )
            }),
    {
        match find_operation(&self.planning_operations, operation_id) {
            Some(i) => Ok(Some(self.planning_operations[i].record.copy())),
            None => Ok(None),
        }
    }

    /// The immutable proposal recorded for a planning operation: its digest
    /// and canonical form.
    pub fn planning_record_proposal(&self, operation_id: &str) -> (r: Result<Option<([u8; 32], String)>, StoreError>)
        ensures
            ({
                let i = find_last(self.planning_records@, record_key(), operation_id@);
                match r {
                    Ok(Some((d, c))) => i >= 0 && d == self.planning_records@[i].proposal_digest
                        && c@ == self.planning_records@[i].canonical_proposal@,
                    Ok(None) => i < 0,
                    Err(_) => false,
                }
            }),
    {
        match find_record(&self.planning_records, operation_id) {
            Some(i) => Ok(
                Some((self.planning_records[i].proposal_digest, self.planning_records[i].canonical_proposal.clone())),
            ),
            None => Ok(None),
        }
    }
}

} // verus!
