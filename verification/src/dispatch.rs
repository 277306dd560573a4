//! T3: committing a Run intent.
//!
//! One authoritative transaction turns a dispatch decision into a Run. Every
//! precondition the engine observed is re-read and compared, in a fixed
//! order: dispatch permission and the scheduler revision, configuration
//! currency and the frozen Binding's membership in the active revision, Task
//! currency, Goal and graph currency, Workspace currency, and the single
//! execution slot. Only then are the immutable Binding and source snapshot
//! frozen, the Run created holding the slot, the Task activated, the Goal
//! charged its fairness position, and the Task's eligibility interval closed.

use vstd::prelude::*;

use crate::command::{class_of, command_recorded, gate_outcome, Command, CommandClass, Committed, Gate};
use crate::configuration::{find_revision, revision_at, ComponentDigests};
use crate::error::StoreError;
use crate::execution::{find_run, run_key, run_row_wf, RunPhase, RunStatusRow};
use crate::planning::{find_goal, find_graph, find_task, goal_key, graph_key, task_key, task_row_wf, GoalPhase, TaskPhase, TaskRecord};
use crate::revision::Revision;
use crate::scheduling::{
    binding_key, find_task_scheduling, find_workspace, goal_scheduling_key, run_record_key, slot_held, snapshot_key, task_scheduling_key,
    workspace_key,
    ContextSourceSnapshot, ContextSourceSnapshotRow, ExecutionBinding, ExecutionBindingRow, GoalSchedulingRow,
    RunIntent, RunIntentCommit, RunRecord, SchedulerStateRecord, TaskSchedulingRow, WorkspaceRow,
};
use crate::store::Store;
use crate::table::{
    find_last, has_key, lemma_find_last, lemma_find_last_is, lemma_has_key_update_all, lemma_unique_push, lemma_unique_update,
};
use crate::cancel::lemma_targets_kept;
use crate::text::{bytes_eq, str_eq};

verus! {

/// Why a Run intent is refused, or that it may commit.
pub enum RunIntentDecision {
    Paused,
    SchedulerMoved(i64),
    ConfigurationMoved,
    RevisionMissing,
    BindingForeign,
    TaskAbsent,
    TaskNotDispatchable,
    TaskMoved(i64),
    SpecMismatch,
    GoalMissing,
    GoalNotDispatchable,
    GoalRowMoved(i64),
    GoalRevisionMoved(i64),
    GraphMissing,
    GraphMoved(i64),
    WorkspaceMissing,
    WorkspaceMoved(i64),
    WorkspaceBaseMoved,
    SlotHeld,
    RunTaken,
    FairnessRowExists,
    FairnessRowMissing,
    FairnessMoved(i64),
    TaskSchedulingMissing,
    TaskSchedulingMoved(i64),
    Exhausted,
    Admitted,
}

/// Whether two sets of component digests name the same components.
pub open spec fn same_components(a: ComponentDigests, b: ComponentDigests) -> bool {
    &&& a.agents@ == b.agents@
    &&& a.routing@ == b.routing@
    &&& a.execution_profile@ == b.execution_profile@
    &&& a.evaluator_registry@ == b.evaluator_registry@
    &&& a.context_policy@ == b.context_policy@
    &&& a.authorization@ == b.authorization@
}

/// Whether the frozen Binding and snapshot belong to the stored revision
/// `rev` and to this Run's Task and Goal.
pub open spec fn frozen_records_belong(s: Store, i: RunIntent) -> bool {
    let rev = revision_at(s.configuration_revisions@, i.configuration_activation_sequence);
    &&& rev.content_digest@ == i.binding.configuration_content_digest@
    &&& same_components(rev.components, i.binding.component_digests)
    &&& i.snapshot.context_policy_digest@ == i.binding.component_digests.context_policy@
    &&& i.binding.task_id@ == i.task_id@
    &&& i.snapshot.goal_id@ == i.goal_id@
}

/// Whether a Goal phase may receive new Runs.
pub open spec fn goal_dispatchable(p: GoalPhase) -> bool {
    p is Planning || p is Active || p is Evaluating
}

/// The fairness step's decision, when it refuses.
pub open spec fn fairness_decision(s: Store, i: RunIntent) -> Option<RunIntentDecision> {
    let fi = find_last(s.goal_scheduling@, goal_scheduling_key(), i.goal_id@);
    match i.expected_goal_fairness_revision {
        None => if fi >= 0 {
            Some(RunIntentDecision::FairnessRowExists)
        } else {
            None
        },
        Some(e) => if fi < 0 {
            Some(RunIntentDecision::FairnessRowMissing)
        } else if s.goal_scheduling@[fi].revision != e {
            Some(RunIntentDecision::FairnessMoved(s.goal_scheduling@[fi].revision.value))
        } else {
            None
        },
    }
}

/// Whether a revision or counter T3 advances has no room left.
pub open spec fn run_intent_exhausted(s: Store, i: RunIntent) -> bool {
    let t = s.tasks@[find_last(s.tasks@, task_key(), i.task_id@)];
    let ts = s.task_scheduling@[find_last(s.task_scheduling@, task_scheduling_key(), i.task_id@)];
    ||| t.revision.value >= i64::MAX
    ||| s.scheduler.revision.value >= i64::MAX
    ||| s.scheduler.next_service_sequence >= i64::MAX
    ||| ts.revision >= i64::MAX
    ||| (i.expected_goal_fairness_revision matches Some(e) && e.value >= i64::MAX)
}

/// The decision T3 reaches on `s`, checking each precondition in order.
pub open spec fn run_intent_decision(s: Store, i: RunIntent) -> RunIntentDecision {
    let st = s.scheduler;
    let rows = s.configuration_revisions@;
    let ti = find_last(s.tasks@, task_key(), i.task_id@);
    let t = s.tasks@[ti];
    let gi = find_last(s.goals@, goal_key(), i.goal_id@);
    let g = s.goals@[gi];
    let gri = find_last(s.task_graphs@, graph_key(), i.goal_id@);
    let gr = s.task_graphs@[gri];
    let wi = find_last(s.workspaces@, workspace_key(), i.snapshot.workspace_id@);
    let w = s.workspaces@[wi];
    let tsi = find_last(s.task_scheduling@, task_scheduling_key(), i.task_id@);
    if !(st.dispatch_mode is Running) {
        RunIntentDecision::Paused
    } else if st.revision != i.expected_scheduler_revision {
        RunIntentDecision::SchedulerMoved(st.revision.value)
    } else if s.active_configuration.activation_sequence != Some(i.configuration_activation_sequence) {
        RunIntentDecision::ConfigurationMoved
    } else if !(exists|k: int| 0 <= k < rows.len() && #[trigger] rows[k].activation_sequence == i.configuration_activation_sequence) {
        RunIntentDecision::RevisionMissing
    } else if !frozen_records_belong(s, i) {
        RunIntentDecision::BindingForeign
    } else if ti < 0 {
        RunIntentDecision::TaskAbsent
    } else if t.goal_id@ != i.goal_id@ || !(t.phase is Ready) || t.active_run_id is Some {
        RunIntentDecision::TaskNotDispatchable
    } else if t.revision != i.expected_task_revision {
        RunIntentDecision::TaskMoved(t.revision.value)
    } else if t.spec_digest@ != i.snapshot.task_spec_digest@ {
        RunIntentDecision::SpecMismatch
    } else if gi < 0 {
        RunIntentDecision::GoalMissing
    } else if !goal_dispatchable(g.phase) {
        RunIntentDecision::GoalNotDispatchable
    } else if g.revision != i.expected_goal_row_revision {
        RunIntentDecision::GoalRowMoved(g.revision.value)
    } else if g.current_revision != i.expected_goal_current_revision || g.current_revision != i.snapshot.goal_revision {
        RunIntentDecision::GoalRevisionMoved(g.current_revision)
    } else if gri < 0 {
        RunIntentDecision::GraphMissing
    } else if gr.revision.value != i.expected_graph_revision || gr.revision.value != i.snapshot.graph_revision {
        RunIntentDecision::GraphMoved(gr.revision.value)
    } else if wi < 0 {
        RunIntentDecision::WorkspaceMissing
    } else if w.task_id@ != i.task_id@ || w.phase@ != "Ready"@ || w.materialization@ != "Present"@ || w.revision
        != i.expected_workspace_revision.value {
        RunIntentDecision::WorkspaceMoved(w.revision)
    } else if w.resolved_base@ != i.snapshot.workspace_resolved_base@ {
        RunIntentDecision::WorkspaceBaseMoved
    } else if slot_held(s.run_status@) {
        RunIntentDecision::SlotHeld
    } else if has_key(s.runs@, run_record_key(), i.run_id@) || has_key(s.run_status@, run_key(), i.run_id@) {
        RunIntentDecision::RunTaken
    } else if fairness_decision(s, i) is Some {
        fairness_decision(s, i)->0
    } else if tsi < 0 {
        RunIntentDecision::TaskSchedulingMissing
    } else if s.task_scheduling@[tsi].revision != i.expected_task_scheduling_revision.value {
        RunIntentDecision::TaskSchedulingMoved(s.task_scheduling@[tsi].revision)
    } else if run_intent_exhausted(s, i) {
        RunIntentDecision::Exhausted
    } else {
        RunIntentDecision::Admitted
    }
}

/// The error T3 owes for each refusal.
pub open spec fn run_intent_refused(s: Store, i: RunIntent, d: RunIntentDecision, e: StoreError) -> bool {
    let t = s.tasks@[find_last(s.tasks@, task_key(), i.task_id@)];
    let g = s.goals@[find_last(s.goals@, goal_key(), i.goal_id@)];
    match d {
        RunIntentDecision::Paused => e is DispatchPaused,
        RunIntentDecision::SchedulerMoved(a) => e matches StoreError::RevisionConflict { table, id, expected, actual }
            && table@ == "scheduler_state"@ && id@ == "singleton"@ && expected == i.expected_scheduler_revision.value
            && actual == Some(a),
        RunIntentDecision::ConfigurationMoved => e matches StoreError::RevisionConflict { table, id, expected, actual }
            && table@ == "active_configuration"@ && id@ == "singleton"@ && expected == i.configuration_activation_sequence
            && actual == s.active_configuration.activation_sequence,
        RunIntentDecision::TaskAbsent => e matches StoreError::TaskNotDispatchable { task_id, phase, active_run_id }
            && task_id@ == i.task_id@ && phase@ == "Absent"@ && active_run_id is None,
        RunIntentDecision::TaskNotDispatchable => e matches StoreError::TaskNotDispatchable { task_id, phase, active_run_id }
            && task_id@ == i.task_id@ && phase == t.phase.spec_as_str() && active_run_id == t.active_run_id,
        RunIntentDecision::TaskMoved(a) => e matches StoreError::RevisionConflict { table, id, expected, actual }
            && table@ == "tasks"@ && id@ == i.task_id@ && expected == i.expected_task_revision.value && actual == Some(a),
        RunIntentDecision::GoalNotDispatchable => e matches StoreError::GoalNotDispatchable { goal_id, phase }
            && goal_id@ == i.goal_id@ && phase == g.phase.spec_as_str(),
        RunIntentDecision::GoalRowMoved(a) => e matches StoreError::RevisionConflict { table, id, expected, actual }
            && table@ == "goals"@ && id@ == i.goal_id@ && expected == i.expected_goal_row_revision.value
            && actual == Some(a),
        RunIntentDecision::GoalRevisionMoved(a) => e matches StoreError::RevisionConflict { table, id, expected, actual }
            && table@ == "goal_revisions"@ && id@ == i.goal_id@ && expected == i.snapshot.goal_revision
            && actual == Some(a),
        RunIntentDecision::GraphMoved(a) => e matches StoreError::RevisionConflict { table, id, expected, actual }
            && table@ == "task_graphs"@ && id@ == i.goal_id@ && expected == i.expected_graph_revision && actual == Some(a),
        RunIntentDecision::WorkspaceMissing => e matches StoreError::RevisionConflict { table, id, expected, actual }
            && table@ == "workspaces"@ && id@ == i.snapshot.workspace_id@ && expected == i.expected_workspace_revision.value
            && actual is None,
        RunIntentDecision::WorkspaceMoved(a) => e matches StoreError::RevisionConflict { table, id, expected, actual }
            && table@ == "workspaces"@ && id@ == i.snapshot.workspace_id@ && expected == i.expected_workspace_revision.value
            && actual == Some(a),
        RunIntentDecision::SlotHeld => e matches StoreError::DispatchSlotUnavailable { held_by_run, held_for_task }
            && exists|k: int| 0 <= k < s.run_status@.len() && (#[trigger] s.run_status@[k]).active_slot
                && s.run_status@[k].run_id@ == held_by_run@ && s.run_status@[k].task_id@ == held_for_task@,
        RunIntentDecision::RunTaken => e is ConstraintViolated,
        RunIntentDecision::FairnessRowExists => e is ConstraintViolated,
        RunIntentDecision::FairnessMoved(a) => e matches StoreError::RevisionConflict { table, id, expected, actual }
            && table@ == "goal_scheduling_state"@ && id@ == i.goal_id@
            && i.expected_goal_fairness_revision == Some(Revision { value: expected }) && actual == Some(a),
        RunIntentDecision::TaskSchedulingMissing => e matches StoreError::RevisionConflict { table, id, expected, actual }
            && table@ == "task_scheduling_state"@ && id@ == i.task_id@
            && expected == i.expected_task_scheduling_revision.value && actual is None,
        RunIntentDecision::TaskSchedulingMoved(a) => e matches StoreError::RevisionConflict { table, id, expected, actual }
            && table@ == "task_scheduling_state"@ && id@ == i.task_id@
            && expected == i.expected_task_scheduling_revision.value && actual == Some(a),
        RunIntentDecision::Admitted => false,
        _ => e is InvariantViolated,
    }
}

/// An admitted T3's effect: the Binding and snapshot frozen unless already
/// stored, the Run created Active holding the slot, the Task Active pointing
/// at it, the Goal charged the next service sequence, the scheduler advanced,
/// and the Task's eligibility and backoff state cleared.
pub open spec fn run_intent_applied(before: Store, after: Store, i: RunIntent, value: RunIntentCommit) -> bool {
    let ti = find_last(before.tasks@, task_key(), i.task_id@);
    let t = before.tasks@[ti];
    let nt = after.tasks@[ti];
    let st = before.scheduler;
    let charged = st.next_service_sequence;
    let fi = find_last(before.goal_scheduling@, goal_scheduling_key(), i.goal_id@);
    let tsi = find_last(before.task_scheduling@, task_scheduling_key(), i.task_id@);
    let ts = before.task_scheduling@[tsi];
    let nts = after.task_scheduling@[tsi];
    let run = after.runs@.last();
    let status = after.run_status@.last();
    &&& value.run_id@ == i.run_id@
    &&& value.task_revision.value == t.revision.value + 1
    &&& value.scheduler_revision.value == st.revision.value + 1
    &&& value.charged_service_sequence == charged
    &&& after.execution_bindings@ == if has_key(before.execution_bindings@, binding_key(), i.binding_digest@) {
        before.execution_bindings@
    } else {
        before.execution_bindings@.push(ExecutionBindingRow { digest: *i.binding_digest, binding: *i.binding })
    }
    &&& after.context_source_snapshots@ == if has_key(before.context_source_snapshots@, snapshot_key(), i.snapshot_digest@) {
        before.context_source_snapshots@
    } else {
        before.context_source_snapshots@.push(ContextSourceSnapshotRow { digest: *i.snapshot_digest, snapshot: *i.snapshot })
    }
    &&& after.runs@.len() == before.runs@.len() + 1 && after.runs@.drop_last() == before.runs@
    &&& run.id@ == i.run_id@ && run.task_id@ == i.task_id@
    &&& run.binding_digest == *i.binding_digest && run.context_source_snapshot_digest == *i.snapshot_digest
    &&& after.run_status@.len() == before.run_status@.len() + 1 && after.run_status@.drop_last() == before.run_status@
    &&& status.run_id@ == i.run_id@ && status.task_id@ == i.task_id@ && status.phase is Active
    &&& status.terminal_target is None && status.revision == 1 && status.active_slot && status.current_attempt_id is None
    &&& after.tasks@.len() == before.tasks@.len()
    &&& forall|k: int| 0 <= k < before.tasks@.len() && k != ti ==> after.tasks@[k] == before.tasks@[k]
    &&& nt.id == t.id && nt.goal_id == t.goal_id && nt.created_graph_revision == t.created_graph_revision
    &&& nt.spec_digest == t.spec_digest && nt.phase is Active && nt.revision.value == t.revision.value + 1
    &&& nt.active_run_id matches Some(r) && r@ == i.run_id@
    &&& match i.expected_goal_fairness_revision {
        None => {
            &&& after.goal_scheduling@.len() == before.goal_scheduling@.len() + 1
            &&& after.goal_scheduling@.drop_last() == before.goal_scheduling@
            &&& after.goal_scheduling@.last().goal_id@ == i.goal_id@
            &&& after.goal_scheduling@.last().last_served_sequence == Some(charged)
            &&& after.goal_scheduling@.last().revision.value == 1
        },
        Some(e) => after.goal_scheduling@ == before.goal_scheduling@.update(
            fi,
            GoalSchedulingRow {
                last_served_sequence: Some(charged),
                revision: Revision { value: (e.value + 1) as i64 },
                ..before.goal_scheduling@[fi]
            },
        ),
    }
    &&& after.scheduler == (SchedulerStateRecord {
        dispatch_mode: st.dispatch_mode,
        next_service_sequence: (charged + 1) as i64,
        revision: Revision { value: (st.revision.value + 1) as i64 },
    })
    &&& after.task_scheduling@.len() == before.task_scheduling@.len()
    &&& forall|k: int| 0 <= k < before.task_scheduling@.len() && k != tsi ==> after.task_scheduling@[k] == before.task_scheduling@[k]
    &&& nts.task_id == ts.task_id && nts.eligible_since is None && nts.next_attempt_at is None
    &&& nts.last_failure_code is None && nts.last_failure_detail_json is None && nts.revision == ts.revision + 1
}

impl ExecutionBinding {
    /// An equal copy of this Binding.
    pub fn copy(&self) -> (r: ExecutionBinding)
        ensures
            r == *self,
    {
        ExecutionBinding {
            task_id: self.task_id.clone(),
            configuration_activation_sequence: self.configuration_activation_sequence,
            configuration_content_digest: self.configuration_content_digest,
            component_digests: self.component_digests,
            canonical_json: self.canonical_json.clone(),
        }
    }
}

impl ContextSourceSnapshot {
    /// An equal copy of this snapshot.
    pub fn copy(&self) -> (r: ContextSourceSnapshot)
        ensures
            r == *self,
    {
        ContextSourceSnapshot {
            task_spec_digest: self.task_spec_digest,
            goal_id: self.goal_id.clone(),
            goal_revision: self.goal_revision,
            graph_revision: self.graph_revision,
            agent_name: self.agent_name.clone(),
            agent_version: self.agent_version,
            configuration_activation_sequence: self.configuration_activation_sequence,
            context_policy_digest: self.context_policy_digest,
            workspace_id: self.workspace_id.clone(),
            workspace_resolved_base: self.workspace_resolved_base.clone(),
            canonical_json: self.canonical_json.clone(),
        }
    }
}

fn digests_equal(a: &[u8; 32], b: &[u8; 32]) -> (r: bool)
    ensures
        r == (a@ == b@),
{
    bytes_eq(a.as_slice(), b.as_slice())
}

fn components_equal(a: &ComponentDigests, b: &ComponentDigests) -> (r: bool)
    ensures
        r == same_components(*a, *b),
{
    digests_equal(&a.agents, &b.agents) && digests_equal(&a.routing, &b.routing) && digests_equal(
        &a.execution_profile,
        &b.execution_profile,
    ) && digests_equal(&a.evaluator_registry, &b.evaluator_registry) && digests_equal(
        &a.context_policy,
        &b.context_policy,
    ) && digests_equal(&a.authorization, &b.authorization)
}

fn find_goal_scheduling(rows: &Vec<GoalSchedulingRow>, goal_id: &str) -> (r: Option<usize>)
    ensures
        match r {
            Some(i) => i < rows@.len() && i == find_last(rows@, goal_scheduling_key(), goal_id@),
            None => find_last(rows@, goal_scheduling_key(), goal_id@) == -1,
        },
{
    let mut i: usize = rows.len();
    while i > 0
        invariant
            i <= rows@.len(),
            forall|j: int| i <= j < rows@.len() ==> (goal_scheduling_key())(#[trigger] rows@[j]) != goal_id@,
        decreases i,
    {
        i = i - 1;
        if str_eq(rows[i].goal_id.as_str(), goal_id) {
            proof {
                lemma_find_last_is(rows@, goal_scheduling_key(), goal_id@, i as int);
            }
            return Some(i);
        }
    }
    proof {
        lemma_find_last(rows@, goal_scheduling_key(), goal_id@);
    }
    None
}

fn has_run_record(rows: &Vec<RunRecord>, id: &str) -> (r: bool)
    ensures
        r == has_key(rows@, run_record_key(), id@),
{
    let mut i: usize = 0;
    while i < rows.len()
        invariant
            i <= rows@.len(),
            forall|j: int| 0 <= j < i ==> (run_record_key())(#[trigger] rows@[j]) != id@,
        decreases rows@.len() - i,
    {
        if str_eq(rows[i].id.as_str(), id) {
            assert((run_record_key())(rows@[i as int]) == id@);
            return true;
        }
        i = i + 1;
    }
    false
}

fn has_binding(rows: &Vec<ExecutionBindingRow>, d: &[u8; 32]) -> (r: bool)
    ensures
        r == has_key(rows@, binding_key(), d@),
{
    let mut i: usize = 0;
    while i < rows.len()
        invariant
            i <= rows@.len(),
            forall|j: int| 0 <= j < i ==> (binding_key())(#[trigger] rows@[j]) != d@,
        decreases rows@.len() - i,
    {
        if digests_equal(&rows[i].digest, d) {
            assert((binding_key())(rows@[i as int]) == d@);
            return true;
        }
        i = i + 1;
    }
    false
}

fn has_snapshot(rows: &Vec<ContextSourceSnapshotRow>, d: &[u8; 32]) -> (r: bool)
    ensures
        r == has_key(rows@, snapshot_key(), d@),
{
    let mut i: usize = 0;
    while i < rows.len()
        invariant
            i <= rows@.len(),
            forall|j: int| 0 <= j < i ==> (snapshot_key())(#[trigger] rows@[j]) != d@,
        decreases rows@.len() - i,
    {
        if digests_equal(&rows[i].digest, d) {
            assert((snapshot_key())(rows@[i as int]) == d@);
            return true;
        }
        i = i + 1;
    }
    false
}

/// The Run holding the slot, if any.
fn find_slot_holder(rows: &Vec<RunStatusRow>) -> (r: Option<usize>)
    ensures
        match r {
            Some(k) => k < rows@.len() && rows@[k as int].active_slot,
            None => !slot_held(rows@),
        },
{
    let mut i: usize = 0;
    while i < rows.len()
        invariant
            i <= rows@.len(),
            forall|j: int| 0 <= j < i ==> !(#[trigger] rows@[j]).active_slot,
        decreases rows@.len() - i,
    {
        if rows[i].active_slot {
            return Some(i);
        }
        i = i + 1;
    }
    None
}

/// Where an admitted T3 writes.
pub(crate) struct RunIntentTargets {
    pub task: usize,
    pub fairness: Option<usize>,
    pub task_scheduling: usize,
}

impl Store {
    /// Re-reads every T3 precondition in order, refusing with the error the
    /// first failing one owes, or naming the rows an admitted commit writes.
    fn check_run_intent(&self, intent: &RunIntent) -> (r: Result<RunIntentTargets, StoreError>)
        requires
            self.wf(),
        ensures
            match r {
                Ok(t) => {
                    &&& run_intent_decision(*self, *intent) is Admitted
                    &&& t.task as int == find_last(self.tasks@, task_key(), intent.task_id@)
                    &&& t.task_scheduling as int == find_last(self.task_scheduling@, task_scheduling_key(), intent.task_id@)
                    &&& match t.fairness {
                        Some(f) => f as int == find_last(self.goal_scheduling@, goal_scheduling_key(), intent.goal_id@)
                            && intent.expected_goal_fairness_revision is Some,
                        None => intent.expected_goal_fairness_revision is None,
                    }
                },
                Err(e) => !(run_intent_decision(*self, *intent) is Admitted) && run_intent_refused(
                    *self,
                    *intent,
                    run_intent_decision(*self, *intent),
                    e,
                ),
            },
    {
        let binding = intent.binding;
        let snapshot = intent.snapshot;
        // 1. Dispatch permission, first, then the scheduler fence.
        if self.scheduler.dispatch_mode != crate::scheduling::DispatchMode::Running {
            return Err(StoreError::DispatchPaused);
        }
        if self.scheduler.revision.value != intent.expected_scheduler_revision.value {
            return Err(
                StoreError::RevisionConflict {
                    table: "scheduler_state",
                    id: "singleton".to_string(),
                    expected: intent.expected_scheduler_revision.value,
                    actual: Some(self.scheduler.revision.value),
                },
            );
        }
        // 2. Configuration currency, and the frozen records' membership.
        let active = self.active_configuration.activation_sequence;
        let is_current: bool = match active {
            Some(a) => a == intent.configuration_activation_sequence,
            None => false,
        };
        if !is_current {
            return Err(
                StoreError::RevisionConflict {
                    table: "active_configuration",
                    id: "singleton".to_string(),
                    expected: intent.configuration_activation_sequence,
                    actual: active,
                },
            );
        }
        let ri: usize = match find_revision(&self.configuration_revisions, intent.configuration_activation_sequence) {
            Some(i) => i,
            None => {
                return Err(
                    StoreError::InvariantViolated("the active configuration names a revision that is not stored".to_string()),
                );
            },
        };
        proof {
            crate::configuration::lemma_revision_at(
                self.configuration_components@,
                self.configuration_revisions@,
                self.active_configuration,
                ri as int,
            );
        }
        let rev = &self.configuration_revisions[ri];
        if !digests_equal(&rev.content_digest, &binding.configuration_content_digest) || !components_equal(
            &rev.components,
            &binding.component_digests,
        ) || !digests_equal(&snapshot.context_policy_digest, &binding.component_digests.context_policy) {
            return Err(
                StoreError::InvariantViolated(
                    "the frozen Binding or source snapshot does not belong to the active ConfigurationRevision".to_string(),
                ),
            );
        }
        if !str_eq(binding.task_id.as_str(), intent.task_id) {
            return Err(StoreError::InvariantViolated("the frozen Binding names another Task".to_string()));
        }
        if !str_eq(snapshot.goal_id.as_str(), intent.goal_id) {
            return Err(StoreError::InvariantViolated("the frozen source snapshot names another Goal".to_string()));
        }
        // 3. Task currency.
        let ti: usize = match find_task(&self.tasks, intent.task_id) {
            Some(i) => i,
            None => {
                return Err(
                    StoreError::TaskNotDispatchable {
                        task_id: intent.task_id.to_owned(),
                        phase: "Absent",
                        active_run_id: None,
                    },
                );
            },
        };
        let t = &self.tasks[ti];
        if !str_eq(t.goal_id.as_str(), intent.goal_id) || t.phase != TaskPhase::Ready || t.active_run_id.is_some() {
            return Err(
                StoreError::TaskNotDispatchable {
                    task_id: intent.task_id.to_owned(),
                    phase: t.phase.as_str(),
                    active_run_id: match &t.active_run_id {
                        Some(r) => Some(r.clone()),
                        None => None,
                    },
                },
            );
        }
        if t.revision.value != intent.expected_task_revision.value {
            return Err(
                StoreError::RevisionConflict {
                    table: "tasks",
                    id: intent.task_id.to_owned(),
                    expected: intent.expected_task_revision.value,
                    actual: Some(t.revision.value),
                },
            );
        }
        if !digests_equal(&t.spec_digest, &snapshot.task_spec_digest) {
            return Err(
                StoreError::InvariantViolated(
                    "the frozen source snapshot names another Task spec than the Task stores".to_string(),
                ),
            );
        }
        // 4. Goal and graph currency.
        let gi: usize = match find_goal(&self.goals, intent.goal_id) {
            Some(i) => i,
            None => {
                return Err(StoreError::InvariantViolated("the Task names a Goal that does not exist".to_string()));
            },
        };
        let g = &self.goals[gi];
        if !(g.phase == GoalPhase::Planning || g.phase == GoalPhase::Active || g.phase == GoalPhase::Evaluating) {
            return Err(StoreError::GoalNotDispatchable { goal_id: intent.goal_id.to_owned(), phase: g.phase.as_str() });
        }
        if g.revision.value != intent.expected_goal_row_revision.value {
            return Err(
                StoreError::RevisionConflict {
                    table: "goals",
                    id: intent.goal_id.to_owned(),
                    expected: intent.expected_goal_row_revision.value,
                    actual: Some(g.revision.value),
                },
            );
        }
        if g.current_revision != intent.expected_goal_current_revision || g.current_revision != snapshot.goal_revision {
            return Err(
                StoreError::RevisionConflict {
                    table: "goal_revisions",
                    id: intent.goal_id.to_owned(),
                    expected: snapshot.goal_revision,
                    actual: Some(g.current_revision),
                },
            );
        }
        let gri: usize = match find_graph(&self.task_graphs, intent.goal_id) {
            Some(i) => i,
            None => {
                return Err(StoreError::InvariantViolated("the Goal has no task graph".to_string()));
            },
        };
        let graph_revision: i64 = self.task_graphs[gri].revision.value;
        if graph_revision != intent.expected_graph_revision || graph_revision != snapshot.graph_revision {
            return Err(
                StoreError::RevisionConflict {
                    table: "task_graphs",
                    id: intent.goal_id.to_owned(),
                    expected: intent.expected_graph_revision,
                    actual: Some(graph_revision),
                },
            );
        }
        // 5. Workspace currency.
        let wi: usize = match find_workspace(&self.workspaces, snapshot.workspace_id.as_str()) {
            Some(i) => i,
            None => {
                return Err(
                    StoreError::RevisionConflict {
                        table: "workspaces",
                        id: snapshot.workspace_id.clone(),
                        expected: intent.expected_workspace_revision.value,
                        actual: None,
                    },
                );
            },
        };
        let w = &self.workspaces[wi];
        if !str_eq(w.task_id.as_str(), intent.task_id) || !str_eq(w.phase.as_str(), "Ready") || !str_eq(
            w.materialization.as_str(),
            "Present",
        ) || w.revision != intent.expected_workspace_revision.value {
            return Err(
                StoreError::RevisionConflict {
                    table: "workspaces",
                    id: snapshot.workspace_id.clone(),
                    expected: intent.expected_workspace_revision.value,
                    actual: Some(w.revision),
                },
            );
        }
        if !str_eq(w.resolved_base.as_str(), snapshot.workspace_resolved_base.as_str()) {
            return Err(
                StoreError::InvariantViolated(
                    "the frozen source snapshot names another Workspace base than the Workspace resolved to".to_string(),
                ),
            );
        }
        // 6. Capacity: the single slot must be free.
        match find_slot_holder(&self.run_status) {
            Some(k) => {
                return Err(
                    StoreError::DispatchSlotUnavailable {
                        held_by_run: self.run_status[k].run_id.clone(),
                        held_for_task: self.run_status[k].task_id.clone(),
                    },
                );
            },
            None => {},
        }
        let run_status_taken: bool = find_run(&self.run_status, intent.run_id).is_some();
        proof {
            lemma_find_last(self.run_status@, run_key(), intent.run_id@);
        }
        if has_run_record(&self.runs, intent.run_id) || run_status_taken {
            return Err(StoreError::ConstraintViolated("a Run with this id already exists".to_string()));
        }
        // 7. The fairness row the charge writes.
        let fi: Option<usize> = find_goal_scheduling(&self.goal_scheduling, intent.goal_id);
        let fairness: Option<usize> = match intent.expected_goal_fairness_revision {
            None => {
                if fi.is_some() {
                    return Err(
                        StoreError::ConstraintViolated("the Goal already has a fairness row".to_string()),
                    );
                }
                None
            },
            Some(e) => {
                match fi {
                    None => {
                        return Err(
                            StoreError::InvariantViolated(
                                "the Goal had a fairness row at observation time and none at commit".to_string(),
                            ),
                        );
                    },
                    Some(f) => {
                        if self.goal_scheduling[f].revision.value != e.value {
                            return Err(
                                StoreError::RevisionConflict {
                                    table: "goal_scheduling_state",
                                    id: intent.goal_id.to_owned(),
                                    expected: e.value,
                                    actual: Some(self.goal_scheduling[f].revision.value),
                                },
                            );
                        }
                        Some(f)
                    },
                }
            },
        };
        // 8. The Task's scheduling row, closed out under CAS.
        let tsi: usize = match find_task_scheduling(&self.task_scheduling, intent.task_id) {
            Some(i) => i,
            None => {
                return Err(
                    StoreError::RevisionConflict {
                        table: "task_scheduling_state",
                        id: intent.task_id.to_owned(),
                        expected: intent.expected_task_scheduling_revision.value,
                        actual: None,
                    },
                );
            },
        };
        if self.task_scheduling[tsi].revision != intent.expected_task_scheduling_revision.value {
            return Err(
                StoreError::RevisionConflict {
                    table: "task_scheduling_state",
                    id: intent.task_id.to_owned(),
                    expected: intent.expected_task_scheduling_revision.value,
                    actual: Some(self.task_scheduling[tsi].revision),
                },
            );
        }
        let fairness_full: bool = match intent.expected_goal_fairness_revision {
            Some(e) => e.value >= i64::MAX,
            None => false,
        };
        if t.revision.value >= i64::MAX || self.scheduler.revision.value >= i64::MAX
            || self.scheduler.next_service_sequence >= i64::MAX || self.task_scheduling[tsi].revision >= i64::MAX
            || fairness_full {
            return Err(StoreError::InvariantViolated("a revision T3 advances is exhausted".to_string()));
        }
        Ok(RunIntentTargets { task: ti, fairness, task_scheduling: tsi })
    }
}

/// T3's complete contract: the kernel's gate, and for a fresh command the
/// refusal each decision owes with nothing written, or the admitted Run
/// intent's effect, its trace and nothing else.
pub open spec fn run_intent_contract(
    before: Store,
    after: Store,
    c: Command,
    i: RunIntent,
    r: Result<Committed<RunIntentCommit>, StoreError>,
) -> bool {
    &&& gate_outcome(before, after, c, r)
    &&& class_of(before, c) is Fresh ==> match run_intent_decision(before, i) {
                RunIntentDecision::Admitted => {
                    &&& r matches Ok(Committed::Executed { value, cursor })
                    &&& run_intent_applied(before, after, i, value)
                    &&& command_recorded(before, after, c, cursor)
                    &&& (Store {
                        execution_bindings: before.execution_bindings,
                        context_source_snapshots: before.context_source_snapshots,
                        runs: before.runs,
                        run_status: before.run_status,
                        tasks: before.tasks,
                        goal_scheduling: before.goal_scheduling,
                        scheduler: before.scheduler,
                        task_scheduling: before.task_scheduling,
                        events: before.events,
                        next_sequence: before.next_sequence,
                        commands: before.commands,
                        ..after
                    }) == before
                },
                d => (r matches Err(e) && run_intent_refused(before, i, d, e)) && after == before,
            }
}

/// The Workspace a Run intent names serves it: it exists, belongs to the
/// intent's Task, is Ready and Present, and is at the revision the intent
/// expects.
pub open spec fn intent_workspace_fits(s: Store, i: RunIntent) -> bool {
    let wi = find_last(s.workspaces@, workspace_key(), i.snapshot.workspace_id@);
    &&& wi >= 0
    &&& s.workspaces@[wi].task_id@ == i.task_id@
    &&& s.workspaces@[wi].phase@ == "Ready"@
    &&& s.workspaces@[wi].materialization@ == "Present"@
    &&& s.workspaces@[wi].revision == i.expected_workspace_revision.value
}

impl Store {
    /// Writes an admitted T3.
    fn apply_run_intent(&mut self, intent: &RunIntent, targets: &RunIntentTargets) -> (value: RunIntentCommit)
        requires
            old(self).wf(),
            run_intent_decision(*old(self), *intent) is Admitted,
            targets.task as int == find_last(old(self).tasks@, task_key(), intent.task_id@),
            targets.task_scheduling as int == find_last(
                old(self).task_scheduling@,
                task_scheduling_key(),
                intent.task_id@,
            ),
            match targets.fairness {
                Some(f) => f as int == find_last(old(self).goal_scheduling@, goal_scheduling_key(), intent.goal_id@)
                    && intent.expected_goal_fairness_revision is Some,
                None => intent.expected_goal_fairness_revision is None,
            },
        ensures
            final(self).wf(),
            run_intent_applied(*old(self), *final(self), *intent, value),
            (Store {
                execution_bindings: old(self).execution_bindings,
                context_source_snapshots: old(self).context_source_snapshots,
                runs: old(self).runs,
                run_status: old(self).run_status,
                tasks: old(self).tasks,
                goal_scheduling: old(self).goal_scheduling,
                scheduler: old(self).scheduler,
                task_scheduling: old(self).task_scheduling,
                ..*final(self)
            }) == *old(self),
    {
        let ghost before = *self;
        proof {
            lemma_find_last(self.tasks@, task_key(), intent.task_id@);
            lemma_find_last(self.task_scheduling@, task_scheduling_key(), intent.task_id@);
            lemma_find_last(self.goal_scheduling@, goal_scheduling_key(), intent.goal_id@);
            lemma_find_last(self.run_status@, run_key(), intent.run_id@);
        }
        let ti = targets.task;
        let tsi = targets.task_scheduling;
        // Freeze the immutable authority, content-addressed.
        if !has_binding(&self.execution_bindings, intent.binding_digest) {
            let row = ExecutionBindingRow { digest: *intent.binding_digest, binding: intent.binding.copy() };
            proof {
                lemma_unique_push(self.execution_bindings@, binding_key(), row);
            }
            self.execution_bindings.push(row);
        }
        if !has_snapshot(&self.context_source_snapshots, intent.snapshot_digest) {
            let row = ContextSourceSnapshotRow { digest: *intent.snapshot_digest, snapshot: intent.snapshot.copy() };
            proof {
                lemma_unique_push(self.context_source_snapshots@, snapshot_key(), row);
            }
            self.context_source_snapshots.push(row);
        }
        // The Run, holding the single slot.
        let run = RunRecord {
            id: intent.run_id.to_owned(),
            task_id: intent.task_id.to_owned(),
            binding_digest: *intent.binding_digest,
            context_source_snapshot_digest: *intent.snapshot_digest,
        };
        proof {
            lemma_unique_push(self.runs@, run_record_key(), run);
        }
        self.runs.push(run);
        let status = RunStatusRow {
            run_id: intent.run_id.to_owned(),
            task_id: intent.task_id.to_owned(),
            phase: RunPhase::Active,
            terminal_target: None,
            revision: 1,
            active_slot: true,
            current_attempt_id: None,
        };
        proof {
            lemma_unique_push(self.run_status@, run_key(), status);
        }
        self.run_status.push(status);
        // Task activation under its observed revision.
        let t = &self.tasks[ti];
        let task_revision = Revision { value: t.revision.value + 1 };
        let activated = TaskRecord {
            id: t.id.clone(),
            goal_id: t.goal_id.clone(),
            phase: TaskPhase::Active,
            created_graph_revision: t.created_graph_revision,
            spec_digest: t.spec_digest,
            revision: task_revision,
            active_run_id: Some(intent.run_id.to_owned()),
        };
        proof {
            lemma_unique_update(self.tasks@, task_key(), ti as int, activated);
            lemma_has_key_update_all(self.tasks@, task_key(), ti as int, activated);
        }
        self.tasks.set(ti, activated);
        // The fairness charge: the Goal is served exactly when the Run commits.
        let charged: i64 = self.scheduler.next_service_sequence;
        match targets.fairness {
            None => {
                let row = GoalSchedulingRow {
                    goal_id: intent.goal_id.to_owned(),
                    last_served_sequence: Some(charged),
                    revision: Revision { value: 1 },
                };
                proof {
                    lemma_unique_push(self.goal_scheduling@, goal_scheduling_key(), row);
                }
                self.goal_scheduling.push(row);
            },
            Some(f) => {
                let e: i64 = self.goal_scheduling[f].revision.value;
                let row = GoalSchedulingRow {
                    goal_id: self.goal_scheduling[f].goal_id.clone(),
                    last_served_sequence: Some(charged),
                    revision: Revision { value: e + 1 },
                };
                proof {
                    lemma_unique_update(self.goal_scheduling@, goal_scheduling_key(), f as int, row);
                }
                self.goal_scheduling.set(f, row);
            },
        }
        let scheduler_revision = Revision { value: self.scheduler.revision.value + 1 };
        self.scheduler = SchedulerStateRecord {
            dispatch_mode: self.scheduler.dispatch_mode,
            next_service_sequence: charged + 1,
            revision: scheduler_revision,
        };
        // Leaving Ready closes the Task's eligibility interval.
        let ts = &self.task_scheduling[tsi];
        let closed = TaskSchedulingRow {
            task_id: ts.task_id.clone(),
            eligible_since: None,
            next_attempt_at: None,
            last_failure_code: None,
            last_failure_detail_json: None,
            revision: ts.revision + 1,
        };
        proof {
            lemma_unique_update(self.task_scheduling@, task_scheduling_key(), tsi as int, closed);
        }
        self.task_scheduling.set(tsi, closed);
        proof {
            assert(self.runs@.drop_last() =~= before.runs@);
            assert(self.run_status@.drop_last() =~= before.run_status@);
            if targets.fairness is None {
                assert(self.goal_scheduling@.drop_last() =~= before.goal_scheduling@);
            }
            let last = self.run_status@.len() - 1;
            assert(run_row_wf(self.run_status@[last]));
            assert forall|i: int| 0 <= i < self.run_status@.len() implies run_row_wf(#[trigger] self.run_status@[i]) by {
                if i < last {
                    assert(self.run_status@[i] == before.run_status@[i]);
                }
            }
            assert forall|i: int, j: int|
                0 <= i < self.run_status@.len() && 0 <= j < self.run_status@.len() && i != j
                    && #[trigger] self.run_status@[i].active_slot implies !#[trigger] self.run_status@[j].active_slot by {
                if i < last {
                    assert(self.run_status@[i] == before.run_status@[i]);
                    assert(before.run_status@[i].active_slot);
                }
                if j < last {
                    assert(self.run_status@[j] == before.run_status@[j]);
                    if before.run_status@[j].active_slot {
                        assert(slot_held(before.run_status@));
                    }
                }
            }
            assert forall|i: int| 0 <= i < self.tasks@.len() implies task_row_wf(#[trigger] self.tasks@[i]) by {
                if i != ti {
                    assert(self.tasks@[i] == before.tasks@[i]);
                }
            }
            lemma_targets_kept(before, *self);
            assert forall|i: int| 0 <= i < self.goal_scheduling@.len() implies (#[trigger] self.goal_scheduling@[i]).revision.value
                >= 1 by {
                if i < before.goal_scheduling@.len() && (targets.fairness is None || i != targets.fairness->0) {
                    assert(self.goal_scheduling@[i] == before.goal_scheduling@[i]);
                }
            }
            assert forall|i: int| 0 <= i < self.task_scheduling@.len() implies (#[trigger] self.task_scheduling@[i]).revision
                >= 1 by {
                if i != tsi {
                    assert(self.task_scheduling@[i] == before.task_scheduling@[i]);
                }
            }
        }
        RunIntentCommit {
            run_id: intent.run_id.to_owned(),
            task_revision,
            scheduler_revision,
            charged_service_sequence: charged,
        }
    }

    /// Commits T3 under the command kernel: re-checks every precondition the
    /// engine observed and, only when all hold, freezes the Binding and
    /// source snapshot, creates the Run holding the single execution slot,
    /// activates the Task, charges the Goal's fairness position and closes
    /// the Task's eligibility interval, together with the command's Event and
    /// ledger row. Any refusal changes nothing.
    pub fn commit_run_intent(&mut self, command: &Command, intent: &RunIntent) -> (r: Result<
        Committed<RunIntentCommit>,
        StoreError,
    >)
        requires
            old(self).wf(),
        ensures
            final(self).wf(),
            run_intent_contract(*old(self), *final(self), *command, *intent, r),
            r matches Ok(Committed::Executed { .. }) ==> intent_workspace_fits(*old(self), *intent),
            class_of(*old(self), *command) is Fresh && !intent_workspace_fits(*old(self), *intent) ==> (r is Err
                && *final(self) == *old(self)),
    {
        let r = self.commit_run_intent_checked(command, intent);
        proof {
            crate::laws::law_admitted_intent_holds_its_workspace(*old(self), *self, *command, *intent, r);
        }
        r
    }

    fn commit_run_intent_checked(&mut self, command: &Command, intent: &RunIntent) -> (r: Result<
        Committed<RunIntentCommit>,
        StoreError,
    >)
        requires
            old(self).wf(),
        ensures
            final(self).wf(),
            gate_outcome(*old(self), *final(self), *command, r),
            class_of(*old(self), *command) is Fresh ==> match run_intent_decision(*old(self), *intent) {
                RunIntentDecision::Admitted => {
                    &&& r matches Ok(Committed::Executed { value, cursor })
                    &&& run_intent_applied(*old(self), *final(self), *intent, value)
                    &&& command_recorded(*old(self), *final(self), *command, cursor)
                    &&& (Store {
                        execution_bindings: old(self).execution_bindings,
                        context_source_snapshots: old(self).context_source_snapshots,
                        runs: old(self).runs,
                        run_status: old(self).run_status,
                        tasks: old(self).tasks,
                        goal_scheduling: old(self).goal_scheduling,
                        scheduler: old(self).scheduler,
                        task_scheduling: old(self).task_scheduling,
                        events: old(self).events,
                        next_sequence: old(self).next_sequence,
                        commands: old(self).commands,
                        ..*final(self)
                    }) == *old(self)
                },
                d => (r matches Err(e) && run_intent_refused(*old(self), *intent, d, e)) && *final(self) == *old(self),
            },
    {
        match self.command_gate(command) {
            Err(e) => return Err(e),
            Ok(Gate::Replayed { cursor, recorded_at }) => {
                return Ok(Committed::Replayed { cursor, recorded_at });
            },
            Ok(Gate::Fresh) => {},
        }
        let ghost before = *self;
        let targets = match self.check_run_intent(intent) {
            Ok(t) => t,
            Err(e) => return Err(e),
        };
        let value = self.apply_run_intent(intent, &targets);
        let ghost mid = *self;
        assert(class_of(mid, *command) is Fresh) by {
            assert(mid.commands == before.commands);
            assert(mid.restore_generation == before.restore_generation);
            assert(mid.next_sequence == before.next_sequence);
        }
        let cursor = self.record_command(command);
        Ok(Committed::Executed { value, cursor })
    }
}

} // verus!
