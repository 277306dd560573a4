//! Durable scheduler state: the operator's dispatch mode, Goal fairness
//! positions, per-Task scheduling backoff, and the single global execution
//! slot.

use vstd::prelude::*;

use crate::command::{class_of, command_recorded, gate_outcome, Command, CommandClass, Committed, Gate};
use crate::configuration::ComponentDigests;
use crate::error::StoreError;
use crate::dispatch::goal_dispatchable;
use crate::execution::{RunPhase, RunStatusRow};
use crate::order::{sort_by_text, sorted_by_text, TextKeyed};
use crate::planning::{
    find_goal, find_graph, goal_key, graph_key, prerequisites_satisfied, prerequisites_satisfied_spec, TaskPhase,
    TaskRecord,
};
use crate::revision::Revision;
use crate::store::Store;
use crate::table::{find_last, lemma_find_last, lemma_find_last_is, lemma_unique_update, unique_by};
use crate::text::{bytes_eq, str_eq};

verus! {

/// The operator's durable desired dispatch state.
#[derive(Debug, Clone, Copy, PartialEq, Eq, Structural)]
pub enum DispatchMode {
    Running,
    Paused,
}

impl DispatchMode {
    /// The stored spelling, in specifications.
    pub open spec fn spec_as_str(self) -> &'static str {
        match self {
            DispatchMode::Running => "RUNNING",
            DispatchMode::Paused => "PAUSED",
        }
    }

    /// The stored spelling.
    #[verifier::when_used_as_spec(spec_as_str)]
    pub fn as_str(self) -> (r: &'static str)
        ensures
            r == self.spec_as_str(),
    {
        match self {
            DispatchMode::Running => "RUNNING",
            DispatchMode::Paused => "PAUSED",
        }
    }
}

/// The singleton durable scheduler state row.
#[derive(Debug, Clone, PartialEq, Eq)]
pub struct SchedulerStateRecord {
    pub dispatch_mode: DispatchMode,
    pub next_service_sequence: i64,
    pub revision: Revision,
}

/// One Goal's durable fairness position, with the row revision a charge
/// must CAS against.
#[derive(Debug, Clone, PartialEq, Eq)]
pub struct GoalSchedulingRow {
    pub goal_id: String,
    pub last_served_sequence: Option<i64>,
    pub revision: Revision,
}

/// The ordering input one Goal contributes to a scheduling decision.
#[derive(Debug, Clone, PartialEq, Eq)]
pub struct GoalFairness {
    pub goal_id: String,
    pub last_served_sequence: Option<i64>,
}

impl GoalSchedulingRow {
    /// The pure ordering input this row contributes.
    pub fn fairness(&self) -> (r: GoalFairness)
        ensures
            r.goal_id == self.goal_id,
            r.last_served_sequence == self.last_served_sequence,
    {
        GoalFairness { goal_id: self.goal_id.clone(), last_served_sequence: self.last_served_sequence }
    }
}

/// One Task's durable scheduling-eligibility and backoff row.
#[derive(Debug, Clone, PartialEq, Eq)]
pub struct TaskSchedulingRow {
    pub task_id: String,
    /// Start of the current eligibility interval; `None` when not eligible.
    pub eligible_since: Option<i64>,
    /// Temporary backoff suppression point.
    pub next_attempt_at: Option<i64>,
    pub last_failure_code: Option<String>,
    pub last_failure_detail_json: Option<String>,
    pub revision: i64,
}

pub open spec fn task_scheduling_key() -> spec_fn(TaskSchedulingRow) -> Seq<char> {
    |r: TaskSchedulingRow| r.task_id@
}

pub open spec fn goal_scheduling_key() -> spec_fn(GoalSchedulingRow) -> Seq<char> {
    |r: GoalSchedulingRow| r.goal_id@
}

/// The Workspace facts a Run intent is checked against.
#[derive(Debug, Clone, PartialEq, Eq)]
pub struct WorkspaceRow {
    pub id: String,
    /// The Task that owns the Workspace.
    pub task_id: String,
    /// The stored phase spelling, such as `Ready`.
    pub phase: String,
    /// The stored materialization spelling, such as `Present`.
    pub materialization: String,
    pub revision: i64,
    /// The verified base commit the Workspace was materialized at.
    pub resolved_base: String,
}

/// The immutable authority a Run executes under, frozen before T3: which
/// ConfigurationRevision it belongs to, with every component digest, and its
/// canonical form.
#[derive(Debug, Clone, PartialEq, Eq)]
pub struct ExecutionBinding {
    pub task_id: String,
    pub configuration_activation_sequence: i64,
    pub configuration_content_digest: [u8; 32],
    pub component_digests: ComponentDigests,
    pub canonical_json: String,
}

/// The immutable source inputs a Run's context is built from, frozen before
/// T3, with its canonical form.
#[derive(Debug, Clone, PartialEq, Eq)]
pub struct ContextSourceSnapshot {
    pub task_spec_digest: [u8; 32],
    pub goal_id: String,
    pub goal_revision: i64,
    pub graph_revision: i64,
    pub agent_name: String,
    pub agent_version: i64,
    pub configuration_activation_sequence: i64,
    pub context_policy_digest: [u8; 32],
    pub workspace_id: String,
    pub workspace_resolved_base: String,
    pub canonical_json: String,
}

/// One stored execution binding, content-addressed.
#[derive(Debug, Clone, PartialEq, Eq)]
pub struct ExecutionBindingRow {
    pub digest: [u8; 32],
    pub binding: ExecutionBinding,
}

/// One stored context source snapshot, content-addressed.
#[derive(Debug, Clone, PartialEq, Eq)]
pub struct ContextSourceSnapshotRow {
    pub digest: [u8; 32],
    pub snapshot: ContextSourceSnapshot,
}

/// One immutable Run identity.
#[derive(Debug, Clone, PartialEq, Eq)]
pub struct RunRecord {
    pub id: String,
    pub task_id: String,
    pub binding_digest: [u8; 32],
    pub context_source_snapshot_digest: [u8; 32],
}

/// Everything the engine froze before asking the store to commit T3.
/// Digests are computed by the caller; the store persists them and checks
/// them against stored authority.
#[derive(Debug, Clone, Copy)]
pub struct RunIntent<'a> {
    pub run_id: &'a str,
    pub task_id: &'a str,
    pub goal_id: &'a str,
    pub expected_task_revision: Revision,
    pub expected_goal_row_revision: Revision,
    pub expected_goal_current_revision: i64,
    pub expected_graph_revision: i64,
    pub expected_workspace_revision: Revision,
    pub expected_scheduler_revision: Revision,
    /// `None` when no fairness row existed for the Goal at observation time.
    pub expected_goal_fairness_revision: Option<Revision>,
    pub expected_task_scheduling_revision: Revision,
    pub configuration_activation_sequence: i64,
    pub binding_digest: &'a [u8; 32],
    pub binding: &'a ExecutionBinding,
    pub snapshot_digest: &'a [u8; 32],
    pub snapshot: &'a ContextSourceSnapshot,
}

/// What one successful T3 established.
#[derive(Debug, Clone, PartialEq, Eq)]
pub struct RunIntentCommit {
    pub run_id: String,
    /// The Task after activation: phase `Active`, pointing at the Run.
    pub task_revision: Revision,
    /// The scheduler singleton revision after the fairness charge advanced.
    pub scheduler_revision: Revision,
    /// The service sequence charged to the Goal, atomically with the Run.
    pub charged_service_sequence: i64,
}

pub open spec fn workspace_key() -> spec_fn(WorkspaceRow) -> Seq<char> {
    |r: WorkspaceRow| r.id@
}

pub open spec fn binding_key() -> spec_fn(ExecutionBindingRow) -> Seq<u8> {
    |r: ExecutionBindingRow| r.digest@
}

pub open spec fn snapshot_key() -> spec_fn(ContextSourceSnapshotRow) -> Seq<u8> {
    |r: ContextSourceSnapshotRow| r.digest@
}

pub open spec fn run_record_key() -> spec_fn(RunRecord) -> Seq<char> {
    |r: RunRecord| r.id@
}

impl Store {
    /// The scheduling family's invariants.
    pub open spec fn scheduling_wf(&self) -> bool {
        &&& self.scheduler.next_service_sequence >= 1
        &&& self.scheduler.revision.value >= 1
        &&& unique_by(self.task_scheduling@, task_scheduling_key())
        &&& unique_by(self.goal_scheduling@, goal_scheduling_key())
        &&& forall|i: int| 0 <= i < self.goal_scheduling@.len() ==> (#[trigger] self.goal_scheduling@[i]).revision.value >= 1
        &&& forall|i: int| 0 <= i < self.task_scheduling@.len() ==> (#[trigger] self.task_scheduling@[i]).revision >= 1
        &&& unique_by(self.workspaces@, workspace_key())
        &&& unique_by(self.execution_bindings@, binding_key())
        &&& unique_by(self.context_source_snapshots@, snapshot_key())
        &&& unique_by(self.runs@, run_record_key())
    }
}

pub(crate) fn find_task_scheduling(rows: &Vec<TaskSchedulingRow>, task_id: &str) -> (r: Option<usize>)
    ensures
        match r {
            Some(i) => i < rows@.len() && i == find_last(rows@, task_scheduling_key(), task_id@),
            None => find_last(rows@, task_scheduling_key(), task_id@) == -1,
        },
{
    let mut i: usize = rows.len();
    while i > 0
        invariant
            i <= rows@.len(),
            forall|j: int| i <= j < rows@.len() ==> (task_scheduling_key())(#[trigger] rows@[j]) != task_id@,
        decreases i,
    {
        i = i - 1;
        if str_eq(rows[i].task_id.as_str(), task_id) {
            proof {
                lemma_find_last_is(rows@, task_scheduling_key(), task_id@, i as int);
            }
            return Some(i);
        }
    }
    proof {
        lemma_find_last(rows@, task_scheduling_key(), task_id@);
    }
    None
}

pub(crate) fn find_workspace(rows: &Vec<WorkspaceRow>, id: &str) -> (r: Option<usize>)
    ensures
        match r {
            Some(i) => i < rows@.len() && i == find_last(rows@, workspace_key(), id@),
            None => find_last(rows@, workspace_key(), id@) == -1,
        },
{
    let mut i: usize = rows.len();
    while i > 0
        invariant
            i <= rows@.len(),
            forall|j: int| i <= j < rows@.len() ==> (workspace_key())(#[trigger] rows@[j]) != id@,
        decreases i,
    {
        i = i - 1;
        if str_eq(rows[i].id.as_str(), id) {
            proof {
                lemma_find_last_is(rows@, workspace_key(), id@, i as int);
            }
            return Some(i);
        }
    }
    proof {
        lemma_find_last(rows@, workspace_key(), id@);
    }
    None
}

pub(crate) fn find_snapshot(rows: &Vec<ContextSourceSnapshotRow>, d: &[u8; 32]) -> (r: Option<usize>)
    ensures
        match r {
            Some(i) => i < rows@.len() && i == find_last(rows@, snapshot_key(), d@),
            None => find_last(rows@, snapshot_key(), d@) == -1,
        },
{
    let mut i: usize = rows.len();
    while i > 0
        invariant
            i <= rows@.len(),
            forall|j: int| i <= j < rows@.len() ==> (snapshot_key())(#[trigger] rows@[j]) != d@,
        decreases i,
    {
        i = i - 1;
        if bytes_eq(rows[i].digest.as_slice(), d.as_slice()) {
            proof {
                lemma_find_last_is(rows@, snapshot_key(), d@, i as int);
            }
            return Some(i);
        }
    }
    proof {
        lemma_find_last(rows@, snapshot_key(), d@);
    }
    None
}

pub(crate) fn find_binding(rows: &Vec<ExecutionBindingRow>, d: &[u8; 32]) -> (r: Option<usize>)
    ensures
        match r {
            Some(i) => i < rows@.len() && i == find_last(rows@, binding_key(), d@),
            None => find_last(rows@, binding_key(), d@) == -1,
        },
{
    let mut i: usize = rows.len();
    while i > 0
        invariant
            i <= rows@.len(),
            forall|j: int| i <= j < rows@.len() ==> (binding_key())(#[trigger] rows@[j]) != d@,
        decreases i,
    {
        i = i - 1;
        if bytes_eq(rows[i].digest.as_slice(), d.as_slice()) {
            proof {
                lemma_find_last_is(rows@, binding_key(), d@, i as int);
            }
            return Some(i);
        }
    }
    proof {
        lemma_find_last(rows@, binding_key(), d@);
    }
    None
}

/// Whether some Run holds the global execution slot.
pub open spec fn slot_held(rows: Seq<RunStatusRow>) -> bool {
    exists|i: int| 0 <= i < rows.len() && (#[trigger] rows[i]).active_slot
}

impl Store {
    /// The durable scheduler singleton.
    pub fn scheduler_state(&self) -> (r: SchedulerStateRecord)
        ensures
            r == self.scheduler,
    {
        SchedulerStateRecord {
            dispatch_mode: self.scheduler.dispatch_mode,
            next_service_sequence: self.scheduler.next_service_sequence,
            revision: self.scheduler.revision,
        }
    }

    /// The Run holding the global execution slot, with its Task, if any.
    /// More than one holder would mean a broken store and fails closed; the
    /// store's invariant makes that unreachable.
    pub fn slot_holder(&self) -> (r: Result<Option<(String, String)>, StoreError>)
        requires
            self.wf(),
        ensures
            match r {
                Ok(Some((run_id, task_id))) => exists|i: int| 0 <= i < self.run_status@.len()
                    && (#[trigger] self.run_status@[i]).active_slot && self.run_status@[i].run_id == run_id
                    && self.run_status@[i].task_id == task_id,
                Ok(None) => !slot_held(self.run_status@),
                Err(_) => false,
            },
    {
        let mut found: Option<usize> = None;
        let mut i: usize = 0;
        while i < self.run_status.len()
            invariant
                self.wf(),
                i <= self.run_status@.len(),
                match found {
                    Some(k) => k < i && self.run_status@[k as int].active_slot,
                    None => forall|j: int| 0 <= j < i ==> !(#[trigger] self.run_status@[j]).active_slot,
                },
            decreases self.run_status@.len() - i,
        {
            if self.run_status[i].active_slot {
                match found {
                    Some(k) => {
                        proof {
                            assert(self.run_status@[k as int].active_slot);
                            assert(self.run_status@[i as int].active_slot);
                            assert(false);
                        }
                        return Err(StoreError::InvariantViolated("more than one Run holds the single execution slot".to_string()));
                    },
                    None => {
                        found = Some(i);
                    },
                }
            }
            i = i + 1;
        }
        match found {
            Some(k) => Ok(Some((self.run_status[k].run_id.clone(), self.run_status[k].task_id.clone()))),
            None => Ok(None),
        }
    }

    /// Commits the operator's desired dispatch mode under the command
    /// kernel, with CAS on the scheduler revision. Re-asserting the current
    /// mode is accepted and audited.
    pub fn set_dispatch_mode(&mut self, command: &Command, mode: DispatchMode, expected: Revision) -> (r: Result<
        Committed<SchedulerStateRecord>,
        StoreError,
    >)
        requires
            old(self).wf(),
        ensures
            final(self).wf(),
            gate_outcome(*old(self), *final(self), *command, r),
            class_of(*old(self), *command) is Fresh ==> if old(self).scheduler.revision != expected {
                (r matches Err(StoreError::RevisionConflict { table, id, expected: e, actual })
                    && table@ == "scheduler_state"@ && id@ == "singleton"@ && e == expected.value
                    && actual == Some(old(self).scheduler.revision.value)
                    && *final(self) == *old(self))
            } else if expected.value >= i64::MAX {
                r matches Err(StoreError::InvariantViolated(_)) && *final(self) == *old(self)
            } else {
                &&& r matches Ok(Committed::Executed { value, cursor })
                &&& value == final(self).scheduler
                &&& final(self).scheduler.dispatch_mode == mode
                &&& final(self).scheduler.next_service_sequence == old(self).scheduler.next_service_sequence
                &&& final(self).scheduler.revision.value == expected.value + 1
                &&& command_recorded(*old(self), *final(self), *command, cursor)
                &&& (Store {
                    scheduler: old(self).scheduler,
                    events: old(self).events,
                    next_sequence: old(self).next_sequence,
                    commands: old(self).commands,
                    ..*final(self)
                }) == *old(self)
            },
    {
        match self.command_gate(command) {
            Err(e) => return Err(e),
            Ok(Gate::Replayed { cursor, recorded_at }) => {
                return Ok(Committed::Replayed { cursor, recorded_at });
            },
            Ok(Gate::Fresh) => {},
        }
        let current: i64 = self.scheduler.revision.value;
        if current != expected.value {
            return Err(
                StoreError::RevisionConflict {
                    table: "scheduler_state",
                    id: "singleton".to_string(),
                    expected: expected.value,
                    actual: Some(current),
                },
            );
        }
        if current >= i64::MAX {
            return Err(StoreError::InvariantViolated("the scheduler revision is exhausted".to_string()));
        }
        let ghost before = *self;
        self.scheduler = SchedulerStateRecord {
            dispatch_mode: mode,
            next_service_sequence: self.scheduler.next_service_sequence,
            revision: Revision { value: current + 1 },
        };
        let value = self.scheduler_state();
        let ghost mid = *self;
        assert(class_of(mid, *command) is Fresh) by {
            assert(mid.commands == before.commands);
        }
        let cursor = self.record_command(command);
        Ok(Committed::Executed { value, cursor })
    }

    /// Records durable scheduling-attempt backoff for one Task, under CAS.
    /// Controller bookkeeping: no command identity, no Event; it never
    /// touches Task lifecycle and never resets `eligible_since`.
    pub fn record_scheduling_backoff(
        &mut self,
        task_id: &str,
        expected: Revision,
        code: &str,
        detail_json: &str,
        next_attempt_at: i64,
    ) -> (r: Result<Revision, StoreError>)
        requires
            old(self).wf(),
        ensures
            final(self).wf(),
            ({
                let ti = find_last(old(self).task_scheduling@, task_scheduling_key(), task_id@);
                let o = old(self).task_scheduling@[ti];
                let n = final(self).task_scheduling@[ti];
                if ti < 0 {
                    (r matches Err(StoreError::RevisionConflict { table, id, expected: e, actual })
                        && table@ == "task_scheduling_state"@ && id@ == task_id@ && e == expected.value
                        && actual is None && *final(self) == *old(self))
                } else if o.revision != expected.value {
                    (r matches Err(StoreError::RevisionConflict { table, id, expected: e, actual })
                        && table@ == "task_scheduling_state"@ && id@ == task_id@ && e == expected.value
                        && actual == Some(o.revision) && *final(self) == *old(self))
                } else if expected.value >= i64::MAX {
                    r matches Err(StoreError::InvariantViolated(_)) && *final(self) == *old(self)
                } else {
                    &&& r == Ok::<Revision, StoreError>(Revision { value: (expected.value + 1) as i64 })
                    &&& final(self).task_scheduling@ == old(self).task_scheduling@.update(ti, n)
                    &&& n.task_id == o.task_id && n.eligible_since == o.eligible_since
                    &&& n.next_attempt_at == Some(next_attempt_at)
                    &&& n.last_failure_code matches Some(c) && c@ == code@
                    &&& n.last_failure_detail_json matches Some(d) && d@ == detail_json@
                    &&& n.revision == expected.value + 1
                    &&& (Store { task_scheduling: old(self).task_scheduling, ..*final(self) }) == *old(self)
                }
            }),
    {
        let ti: usize = match find_task_scheduling(&self.task_scheduling, task_id) {
            Some(i) => i,
            None => {
                return Err(
                    StoreError::RevisionConflict {
                        table: "task_scheduling_state",
                        id: task_id.to_owned(),
                        expected: expected.value,
                        actual: None,
                    },
                );
            },
        };
        let current: i64 = self.task_scheduling[ti].revision;
        if current != expected.value {
            return Err(
                StoreError::RevisionConflict {
                    table: "task_scheduling_state",
                    id: task_id.to_owned(),
                    expected: expected.value,
                    actual: Some(current),
                },
            );
        }
        if current >= i64::MAX {
            return Err(StoreError::InvariantViolated("the scheduling revision is exhausted".to_string()));
        }
        let o = &self.task_scheduling[ti];
        let row = TaskSchedulingRow {
            task_id: o.task_id.clone(),
            eligible_since: o.eligible_since,
            next_attempt_at: Some(next_attempt_at),
            last_failure_code: Some(code.to_owned()),
            last_failure_detail_json: Some(detail_json.to_owned()),
            revision: current + 1,
        };
        proof {
            lemma_unique_update(self.task_scheduling@, task_scheduling_key(), ti as int, row);
        }
        self.task_scheduling.set(ti, row);
        Ok(Revision { value: current + 1 })
    }
}

// ---- The scheduling snapshot ------------------------------------------------

impl GoalSchedulingRow {
    /// An equal copy of this row.
    pub fn copy(&self) -> (r: GoalSchedulingRow)
        ensures
            r == *self,
    {
        GoalSchedulingRow {
            goal_id: self.goal_id.clone(),
            last_served_sequence: self.last_served_sequence,
            revision: self.revision,
        }
    }
}

impl TextKeyed for GoalSchedulingRow {
    open spec fn text_key(&self) -> Seq<char> {
        self.goal_id@
    }

    fn key_text(&self) -> (r: &str) {
        self.goal_id.as_str()
    }
}

/// One Task that is currently dispatchable, with every revision a T3 commit
/// must revalidate, read from one consistent state.
#[derive(Debug, Clone, PartialEq, Eq)]
pub struct DispatchCandidate {
    /// The stable identity the ordering decision selects.
    pub task_id: String,
    pub goal_id: String,
    pub spec_digest: [u8; 32],
    pub eligible_since: i64,
    pub task_revision: Revision,
    pub goal_current_revision: i64,
    pub goal_row_revision: Revision,
    pub graph_revision: i64,
    pub workspace_id: String,
    pub workspace_resolved_base: String,
    pub workspace_revision: Revision,
    /// The Task's scheduling row revision, for a backoff CAS.
    pub scheduling_revision: Revision,
}

/// The ordering input one dispatchable Task contributes.
#[derive(Debug, Clone, PartialEq, Eq)]
pub struct SchedulableTask {
    pub task_id: String,
    pub goal_id: String,
    pub eligible_since: i64,
}

impl DispatchCandidate {
    /// The ordering input this candidate contributes.
    pub fn schedulable(&self) -> (r: SchedulableTask)
        ensures
            r.task_id == self.task_id,
            r.goal_id == self.goal_id,
            r.eligible_since == self.eligible_since,
    {
        SchedulableTask {
            task_id: self.task_id.clone(),
            goal_id: self.goal_id.clone(),
            eligible_since: self.eligible_since,
        }
    }
}

impl TextKeyed for DispatchCandidate {
    open spec fn text_key(&self) -> Seq<char> {
        self.task_id@
    }

    fn key_text(&self) -> (r: &str) {
        self.task_id.as_str()
    }
}

/// Everything one scheduling cycle reads from authority, from one state:
/// a fairness row, a candidate list and the scheduler singleton are never
/// observed from different moments.
#[derive(Debug, Clone, PartialEq, Eq)]
pub struct SchedulingSnapshot {
    pub state: SchedulerStateRecord,
    /// One fairness position per Goal that has ever been charged, in Goal id
    /// order. An absent row means "never served".
    pub goals: Vec<GoalSchedulingRow>,
    /// The dispatchable Tasks, in Task id order.
    pub candidates: Vec<DispatchCandidate>,
    /// The instant this snapshot considers current, for backoff.
    pub now: i64,
}

/// Whether a nonterminal Run exists for Task `task_id`.
pub open spec fn run_live_for(rows: Seq<RunStatusRow>, task_id: Seq<char>) -> bool {
    exists|i: int| 0 <= i < rows.len() && (#[trigger] rows[i]).task_id@ == task_id && rows[i].phase.is_nonterminal()
}

/// Whether Task `t` may be dispatched at instant `now`, Workspace aside: it
/// is Ready; its Goal is Planning, Active or Evaluating; its graph exists;
/// it is inside an eligibility interval and past any backoff; no Run of it
/// is live; and every active `requires_success` dependency has Succeeded at
/// the graph's revision. Pause, configuration readiness and slot occupancy
/// are the controller's gates, not the snapshot's.
pub open spec fn task_dispatchable_at(s: Store, t: TaskRecord, now: i64) -> bool {
    let gi = find_last(s.goals@, goal_key(), t.goal_id@);
    let gri = find_last(s.task_graphs@, graph_key(), t.goal_id@);
    let tsi = find_last(s.task_scheduling@, task_scheduling_key(), t.id@);
    &&& t.phase is Ready
    &&& gi >= 0
    &&& goal_dispatchable(s.goals@[gi].phase)
    &&& gri >= 0
    &&& tsi >= 0
    &&& s.task_scheduling@[tsi].eligible_since is Some
    &&& (s.task_scheduling@[tsi].next_attempt_at matches Some(at) ==> at <= now)
    &&& !run_live_for(s.run_status@, t.id@)
    &&& prerequisites_satisfied_spec(s.tasks@, s.task_graph_edges@, t.id@, s.task_graphs@[gri].revision.value as int)
}

/// Whether `w` is a Ready, materialized Workspace of Task `task_id`.
pub open spec fn workspace_serves(w: WorkspaceRow, task_id: Seq<char>) -> bool {
    &&& w.task_id@ == task_id
    &&& w.phase@ == "Ready"@
    &&& w.materialization@ == "Present"@
}

/// The candidate Task `t` makes with Workspace `w`.
pub open spec fn candidate_of(s: Store, t: TaskRecord, w: WorkspaceRow) -> DispatchCandidate {
    let g = s.goals@[find_last(s.goals@, goal_key(), t.goal_id@)];
    let gr = s.task_graphs@[find_last(s.task_graphs@, graph_key(), t.goal_id@)];
    let ts = s.task_scheduling@[find_last(s.task_scheduling@, task_scheduling_key(), t.id@)];
    DispatchCandidate {
        task_id: t.id,
        goal_id: t.goal_id,
        spec_digest: t.spec_digest,
        eligible_since: ts.eligible_since->0,
        task_revision: t.revision,
        goal_current_revision: g.current_revision,
        goal_row_revision: g.revision,
        graph_revision: gr.revision.value,
        workspace_id: w.id,
        workspace_resolved_base: w.resolved_base,
        workspace_revision: Revision { value: w.revision },
        scheduling_revision: Revision { value: ts.revision },
    }
}

/// One candidate per Workspace in `ws` that serves Task `t`, in table order.
pub open spec fn workspace_candidates(s: Store, t: TaskRecord, ws: Seq<WorkspaceRow>) -> Seq<DispatchCandidate>
    decreases ws.len(),
{
    if ws.len() == 0 {
        Seq::empty()
    } else {
        let front = workspace_candidates(s, t, ws.drop_last());
        if workspace_serves(ws.last(), t.id@) {
            front.push(candidate_of(s, t, ws.last()))
        } else {
            front
        }
    }
}

/// The candidates `tasks` contribute at instant `now`, in table order.
pub open spec fn dispatch_candidates(s: Store, tasks: Seq<TaskRecord>, now: i64) -> Seq<DispatchCandidate>
    decreases tasks.len(),
{
    if tasks.len() == 0 {
        Seq::empty()
    } else {
        let front = dispatch_candidates(s, tasks.drop_last(), now);
        if task_dispatchable_at(s, tasks.last(), now) {
            front + workspace_candidates(s, tasks.last(), s.workspaces@)
        } else {
            front
        }
    }
}

fn run_live(rows: &Vec<RunStatusRow>, task_id: &str) -> (r: bool)
    ensures
        r == run_live_for(rows@, task_id@),
{
    let mut i: usize = 0;
    while i < rows.len()
        invariant
            i <= rows@.len(),
            forall|j: int| 0 <= j < i ==> !((#[trigger] rows@[j]).task_id@ == task_id@ && rows@[j].phase.is_nonterminal()),
        decreases rows@.len() - i,
    {
        if (rows[i].phase == RunPhase::Active || rows[i].phase == RunPhase::Finalizing) && str_eq(
            rows[i].task_id.as_str(),
            task_id,
        ) {
            return true;
        }
        i = i + 1;
    }
    false
}

fn serves(w: &WorkspaceRow, task_id: &str) -> (r: bool)
    ensures
        r == workspace_serves(*w, task_id@),
{
    str_eq(w.task_id.as_str(), task_id) && str_eq(w.phase.as_str(), "Ready") && str_eq(
        w.materialization.as_str(),
        "Present",
    )
}

impl Store {
    /// Where Task `t`'s Goal, graph and scheduling row stand, when `t` is
    /// dispatchable at `now`.
    fn dispatch_rows(&self, t: &TaskRecord, now: i64) -> (r: Option<(usize, usize, usize)>)
        ensures
            match r {
                Some((gi, gri, tsi)) => {
                    &&& task_dispatchable_at(*self, *t, now)
                    &&& gi == find_last(self.goals@, goal_key(), t.goal_id@)
                    &&& gri == find_last(self.task_graphs@, graph_key(), t.goal_id@)
                    &&& tsi == find_last(self.task_scheduling@, task_scheduling_key(), t.id@)
                },
                None => !task_dispatchable_at(*self, *t, now),
            },
    {
        if t.phase != TaskPhase::Ready {
            return None;
        }
        let gi: usize = match find_goal(&self.goals, t.goal_id.as_str()) {
            Some(gi) => gi,
            None => return None,
        };
        let phase = self.goals[gi].phase;
        if !(phase == crate::planning::GoalPhase::Planning || phase == crate::planning::GoalPhase::Active || phase
            == crate::planning::GoalPhase::Evaluating) {
            return None;
        }
        let gri: usize = match find_graph(&self.task_graphs, t.goal_id.as_str()) {
            Some(gri) => gri,
            None => return None,
        };
        let tsi: usize = match find_task_scheduling(&self.task_scheduling, t.id.as_str()) {
            Some(tsi) => tsi,
            None => return None,
        };
        let ts = &self.task_scheduling[tsi];
        if ts.eligible_since.is_none() {
            return None;
        }
        match ts.next_attempt_at {
            Some(at) => {
                if at > now {
                    return None;
                }
            },
            None => {},
        }
        if run_live(&self.run_status, t.id.as_str()) {
            return None;
        }
        if !prerequisites_satisfied(
            &self.tasks,
            &self.task_graph_edges,
            t.id.as_str(),
            self.task_graphs[gri].revision.value,
        ) {
            return None;
        }
        Some((gi, gri, tsi))
    }

    /// The candidate a dispatchable Task makes with one of its Workspaces.
    fn candidate(&self, t: &TaskRecord, w: &WorkspaceRow, gi: usize, gri: usize, tsi: usize) -> (r: DispatchCandidate)
        requires
            gi == find_last(self.goals@, goal_key(), t.goal_id@),
            gri == find_last(self.task_graphs@, graph_key(), t.goal_id@),
            tsi == find_last(self.task_scheduling@, task_scheduling_key(), t.id@),
            gi < self.goals@.len(),
            gri < self.task_graphs@.len(),
            tsi < self.task_scheduling@.len(),
            self.task_scheduling@[tsi as int].eligible_since is Some,
        ensures
            r == candidate_of(*self, *t, *w),
    {
        let g = &self.goals[gi];
        let ts = &self.task_scheduling[tsi];
        let eligible_since: i64 = match ts.eligible_since {
            Some(at) => at,
            None => 0,
        };
        DispatchCandidate {
            task_id: t.id.clone(),
            goal_id: t.goal_id.clone(),
            spec_digest: t.spec_digest,
            eligible_since,
            task_revision: t.revision,
            goal_current_revision: g.current_revision,
            goal_row_revision: g.revision,
            graph_revision: self.task_graphs[gri].revision.value,
            workspace_id: w.id.clone(),
            workspace_resolved_base: w.resolved_base.clone(),
            workspace_revision: Revision { value: w.revision },
            scheduling_revision: Revision { value: ts.revision },
        }
    }

    /// The dispatchable Tasks at instant `now`, in table order: one
    /// candidate per Ready, materialized Workspace of each Task that is
    /// dispatchable at `now`.
    fn collect_candidates(&self, now: i64) -> (r: Vec<DispatchCandidate>)
        ensures
            r@ == dispatch_candidates(*self, self.tasks@, now),
    {
        let mut found: Vec<DispatchCandidate> = Vec::new();
        let mut i: usize = 0;
        while i < self.tasks.len()
            invariant
                i <= self.tasks@.len(),
                found@ == dispatch_candidates(*self, self.tasks@.subrange(0, i as int), now),
            decreases self.tasks@.len() - i,
        {
            let t = &self.tasks[i];
            proof {
                let taken = self.tasks@.subrange(0, i as int + 1);
                assert(taken.drop_last() =~= self.tasks@.subrange(0, i as int));
                assert(taken.last() == *t);
            }
            match self.dispatch_rows(t, now) {
                Some((gi, gri, tsi)) => {
                    let ghost base = found@;
                    let mut w: usize = 0;
                    while w < self.workspaces.len()
                        invariant
                            w <= self.workspaces@.len(),
                            found@ == base + workspace_candidates(*self, *t, self.workspaces@.subrange(0, w as int)),
                            gi == find_last(self.goals@, goal_key(), t.goal_id@),
                            gri == find_last(self.task_graphs@, graph_key(), t.goal_id@),
                            tsi == find_last(self.task_scheduling@, task_scheduling_key(), t.id@),
                            task_dispatchable_at(*self, *t, now),
                        decreases self.workspaces@.len() - w,
                    {
                        let ws = &self.workspaces[w];
                        proof {
                            let taken = self.workspaces@.subrange(0, w as int + 1);
                            assert(taken.drop_last() =~= self.workspaces@.subrange(0, w as int));
                            assert(taken.last() == *ws);
                            lemma_find_last(self.goals@, goal_key(), t.goal_id@);
                            lemma_find_last(self.task_graphs@, graph_key(), t.goal_id@);
                            lemma_find_last(self.task_scheduling@, task_scheduling_key(), t.id@);
                        }
                        if serves(ws, t.id.as_str()) {
                            let c = self.candidate(t, ws, gi, gri, tsi);
                            found.push(c);
                            proof {
                                assert(found@ =~= base + workspace_candidates(
                                    *self,
                                    *t,
                                    self.workspaces@.subrange(0, w as int + 1),
                                ));
                            }
                        }
                        w = w + 1;
                    }
                    proof {
                        assert(self.workspaces@.subrange(0, self.workspaces@.len() as int) =~= self.workspaces@);
                    }
                },
                None => {},
            }
            i = i + 1;
        }
        proof {
            assert(self.tasks@.subrange(0, self.tasks@.len() as int) =~= self.tasks@);
        }
        found
    }

    /// Everything one scheduling cycle reads, with `now` as the current
    /// instant: the scheduler singleton, every Goal fairness row in Goal id
    /// order, and the dispatchable Tasks in Task id order. Suppression by
    /// pause, configuration readiness or slot occupancy is not applied here:
    /// the controller applies those, so a pause never erases a waiting age.
    pub fn scheduling_snapshot_at(&self, now: i64) -> (r: SchedulingSnapshot)
        ensures
            r.state == self.scheduler,
            r.goals@ == sorted_by_text(self.goal_scheduling@),
            r.candidates@ == sorted_by_text(dispatch_candidates(*self, self.tasks@, now)),
            r.now == now,
    {
        let mut goals: Vec<GoalSchedulingRow> = Vec::new();
        let mut i: usize = 0;
        while i < self.goal_scheduling.len()
            invariant
                i <= self.goal_scheduling@.len(),
                goals@ == self.goal_scheduling@.subrange(0, i as int),
            decreases self.goal_scheduling@.len() - i,
        {
            goals.push(self.goal_scheduling[i].copy());
            i = i + 1;
            proof {
                assert(goals@ =~= self.goal_scheduling@.subrange(0, i as int));
            }
        }
        proof {
            assert(goals@ =~= self.goal_scheduling@);
        }
        let candidates = self.collect_candidates(now);
        SchedulingSnapshot {
            state: self.scheduler_state(),
            goals: sort_by_text(goals),
            candidates: sort_by_text(candidates),
            now,
        }
    }

    /// Everything one scheduling cycle reads, at the machine's current time.
    /// The result is exactly [`Store::scheduling_snapshot_at`] at the instant
    /// it reports; the instant itself is whatever the clock said.
    pub fn scheduling_snapshot(&self) -> (r: Result<SchedulingSnapshot, StoreError>)
        ensures
            match r {
                Ok(snapshot) => {
                    &&& snapshot.state == self.scheduler
                    &&& snapshot.goals@ == sorted_by_text(self.goal_scheduling@)
                    &&& snapshot.candidates@ == sorted_by_text(
                        dispatch_candidates(*self, self.tasks@, snapshot.now),
                    )
                },
                Err(_) => false,
            },
    {
        let now: i64 = crate::clock::unix_now();
        Ok(self.scheduling_snapshot_at(now))
    }
}

/// Whether `c` is the candidate Task `t` makes with some Workspace that
/// serves it.
pub open spec fn sourced_from(s: Store, t: TaskRecord, c: DispatchCandidate) -> bool {
    exists|w: WorkspaceRow| workspace_serves(w, t.id@) && c == #[trigger] candidate_of(s, t, w)
}

/// Whether `c` is a candidate some dispatchable Task of `tasks` makes.
pub open spec fn sourced_in(s: Store, tasks: Seq<TaskRecord>, now: i64, c: DispatchCandidate) -> bool {
    exists|j: int|
        0 <= j < tasks.len() && task_dispatchable_at(s, #[trigger] tasks[j], now) && sourced_from(s, tasks[j], c)
}

/// Every candidate a Task list contributes comes from a Task of the list
/// that is dispatchable, paired with a Workspace that serves it.
pub proof fn lemma_candidate_source(s: Store, tasks: Seq<TaskRecord>, now: i64)
    ensures
        forall|i: int|
            0 <= i < dispatch_candidates(s, tasks, now).len() ==> sourced_in(
                s,
                tasks,
                now,
                #[trigger] dispatch_candidates(s, tasks, now)[i],
            ),
    decreases tasks.len(),
{
    if tasks.len() > 0 {
        let front = tasks.drop_last();
        let t = tasks.last();
        let all = dispatch_candidates(s, tasks, now);
        let fc = dispatch_candidates(s, front, now);
        lemma_candidate_source(s, front, now);
        lemma_workspace_candidate_source(s, t, s.workspaces@);
        assert forall|i: int| 0 <= i < all.len() implies sourced_in(s, tasks, now, #[trigger] all[i]) by {
            if i < fc.len() {
                assert(all[i] == fc[i]);
                assert(sourced_in(s, front, now, fc[i]));
                let j = choose|j: int|
                    0 <= j < front.len() && task_dispatchable_at(s, #[trigger] front[j], now) && sourced_from(
                        s,
                        front[j],
                        fc[i],
                    );
                assert(tasks[j] == front[j]);
            } else {
                let wc = workspace_candidates(s, t, s.workspaces@);
                assert(all[i] == wc[i - fc.len()]);
                assert(sourced_from(s, t, wc[i - fc.len()]));
                assert(tasks[tasks.len() - 1] == t);
            }
        }
    }
}

/// Every candidate a Task makes comes from a Workspace that serves it.
pub proof fn lemma_workspace_candidate_source(s: Store, t: TaskRecord, ws: Seq<WorkspaceRow>)
    ensures
        forall|i: int|
            0 <= i < workspace_candidates(s, t, ws).len() ==> sourced_from(
                s,
                t,
                #[trigger] workspace_candidates(s, t, ws)[i],
            ),
    decreases ws.len(),
{
    if ws.len() > 0 {
        let all = workspace_candidates(s, t, ws);
        let fc = workspace_candidates(s, t, ws.drop_last());
        lemma_workspace_candidate_source(s, t, ws.drop_last());
        assert forall|i: int| 0 <= i < all.len() implies sourced_from(s, t, #[trigger] all[i]) by {
            if i < fc.len() {
                assert(all[i] == fc[i]);
            } else {
                assert(all[i] == candidate_of(s, t, ws.last()));
                assert(workspace_serves(ws.last(), t.id@));
            }
        }
    }
}

} // verus!
