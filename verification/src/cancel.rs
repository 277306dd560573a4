//! Goal cancellation as a desired-state transition.
//!
//! Cancellation is available in every nonterminal phase:
//!
//! ```text
//! Planning/Active/Evaluating            -> Finalizing / terminal target Cancelled
//! Finalizing / target Succeeded|Failed  -> Finalizing / terminal target Cancelled
//! Finalizing / target Cancelled         -> unchanged
//! Succeeded | Failed | Cancelled        -> refused
//! ```
//!
//! Finalizing means the terminal outcome is not yet immutable history, so a
//! cancellation can still win by retargeting the pending outcome, but a
//! terminal Goal never reopens. Cancellation never terminalizes anything.
//! Every nonterminal Task of the Goal is driven to the same target in the
//! same transaction, so a fenced Goal never leaves a schedulable Task behind.

use vstd::prelude::*;

use crate::command::{class_of, command_recorded, gate_outcome, Command, Committed, Gate};
use crate::error::StoreError;
use crate::planning::{find_goal, goal_key, task_key, task_row_wf, GoalPhase, GoalRecord, TaskPhase, TaskRecord};
use crate::revision::Revision;
use crate::store::Store;
use crate::table::{
    find_last, has_key, lemma_find_last, lemma_find_last_is, lemma_find_last_push, lemma_find_last_update,
    lemma_find_unique, lemma_has_key_update, lemma_unique_push, lemma_unique_update, unique_by,
};
use crate::text::str_eq;

verus! {

/// The stored terminal target of a Goal that has one.
#[derive(Debug, Clone, PartialEq, Eq)]
pub struct GoalTargetRow {
    pub goal_id: String,
    pub terminal_target: GoalPhase,
}

/// The stored terminal target of a Task that has one, with the reason it
/// was set.
#[derive(Debug, Clone, PartialEq, Eq)]
pub struct TaskTargetRow {
    pub task_id: String,
    pub terminal_target: TaskPhase,
    pub terminal_reason_json: String,
}

pub open spec fn goal_target_key() -> spec_fn(GoalTargetRow) -> Seq<char> {
    |r: GoalTargetRow| r.goal_id@
}

pub open spec fn task_target_key() -> spec_fn(TaskTargetRow) -> Seq<char> {
    |r: TaskTargetRow| r.task_id@
}

/// The terminal target stored for Goal `goal_id`; `None` when the column is
/// empty.
pub open spec fn goal_target_of(rows: Seq<GoalTargetRow>, goal_id: Seq<char>) -> Option<GoalPhase> {
    let i = find_last(rows, goal_target_key(), goal_id);
    if i >= 0 {
        Some(rows[i].terminal_target)
    } else {
        None
    }
}

/// The terminal target and reason stored for Task `task_id`; `None` when
/// the columns are empty.
pub open spec fn task_target_of(rows: Seq<TaskTargetRow>, task_id: Seq<char>) -> Option<(TaskPhase, Seq<char>)> {
    let i = find_last(rows, task_target_key(), task_id);
    if i >= 0 {
        Some((rows[i].terminal_target, rows[i].terminal_reason_json@))
    } else {
        None
    }
}

impl Store {
    /// The terminal-target columns' invariants: at most one target per row,
    /// and only for rows that exist.
    pub open spec fn targets_wf(&self) -> bool {
        &&& unique_by(self.goal_targets@, goal_target_key())
        &&& unique_by(self.task_targets@, task_target_key())
        &&& forall|i: int|
            0 <= i < self.goal_targets@.len() ==> has_key(
                self.goals@,
                goal_key(),
                (#[trigger] self.goal_targets@[i]).goal_id@,
            )
        &&& forall|i: int|
            0 <= i < self.task_targets@.len() ==> has_key(
                self.tasks@,
                task_key(),
                (#[trigger] self.task_targets@[i]).task_id@,
            )
    }
}

/// What one accepted cancellation committed.
#[derive(Debug, Clone, PartialEq, Eq)]
pub struct Cancellation {
    /// The Goal as it now stands: `Finalizing`, targeting `Cancelled`.
    pub goal: GoalRecord,
    /// How many nonterminal Tasks were driven to the same target.
    pub tasks_fenced: usize,
    /// Whether the Goal was already targeting `Cancelled`, so that no Goal
    /// phase changed and no Goal revision was burned.
    pub already_targeted: bool,
}

/// How a cancellation request meets a Goal.
pub enum CancelDecision {
    /// No Goal has the id.
    GoalMissing,
    /// The Goal is terminal, or finalizing toward nothing.
    NotCancellable,
    /// The Goal already targets `Cancelled`.
    AlreadyTargeted,
    /// The Goal is fenced or retargeted.
    Fence,
}

/// The decision a cancellation of `goal_id` reaches on `s`.
pub open spec fn cancel_decision(s: Store, goal_id: Seq<char>) -> CancelDecision {
    let gi = find_last(s.goals@, goal_key(), goal_id);
    if gi < 0 {
        CancelDecision::GoalMissing
    } else {
        let phase = s.goals@[gi].phase;
        let target = goal_target_of(s.goal_targets@, goal_id);
        if phase is Planning || phase is Active || phase is Evaluating {
            CancelDecision::Fence
        } else if phase is Finalizing && (target == Some(GoalPhase::Succeeded) || target == Some(
            GoalPhase::Failed,
        )) {
            CancelDecision::Fence
        } else if phase is Finalizing && target == Some(GoalPhase::Cancelled) {
            CancelDecision::AlreadyTargeted
        } else {
            CancelDecision::NotCancellable
        }
    }
}

/// The reason recorded on every Task a cancellation fences.
pub open spec fn goal_cancelled_reason() -> Seq<char> {
    "{\"code\":\"goal-cancelled\"}"@
}

/// Whether Task `task_id` already targets `Cancelled`.
pub open spec fn task_targets_cancelled(rows: Seq<TaskTargetRow>, task_id: Seq<char>) -> bool {
    task_target_of(rows, task_id) matches Some(t) && t.0 is Cancelled
}

/// Whether cancelling Goal `goal_id` fences Task `t`: it is the Goal's,
/// nonterminal, and not already targeting `Cancelled`. A Task with a live
/// Run is fenced too: the target is safe to set, and only its terminal
/// phase must wait for the Run.
pub open spec fn fenced_by(targets: Seq<TaskTargetRow>, t: TaskRecord, goal_id: Seq<char>) -> bool {
    &&& t.goal_id@ == goal_id
    &&& !t.phase.spec_is_terminal()
    &&& !task_targets_cancelled(targets, t.id@)
}

/// A fenced Task: `Finalizing`, one revision on.
pub open spec fn fenced_task(t: TaskRecord) -> TaskRecord {
    TaskRecord { phase: TaskPhase::Finalizing, revision: Revision { value: (t.revision.value + 1) as i64 }, ..t }
}

/// How many of `tasks` cancelling Goal `goal_id` fences.
pub open spec fn fence_count(targets: Seq<TaskTargetRow>, tasks: Seq<TaskRecord>, goal_id: Seq<char>) -> nat
    decreases tasks.len(),
{
    if tasks.len() == 0 {
        0
    } else {
        fence_count(targets, tasks.drop_last(), goal_id) + if fenced_by(targets, tasks.last(), goal_id) {
            1nat
        } else {
            0nat
        }
    }
}

/// Whether a fenced Task has id `task_id`.
pub open spec fn fence_touches(s: Store, goal_id: Seq<char>, task_id: Seq<char>) -> bool {
    exists|i: int|
        0 <= i < s.tasks@.len() && (#[trigger] s.tasks@[i]).id@ == task_id && fenced_by(
            s.task_targets@,
            s.tasks@[i],
            goal_id,
        )
}

/// Whether a revision the cancellation would advance has no room left.
pub open spec fn cancel_exhausted(s: Store, goal_id: Seq<char>) -> bool {
    let gi = find_last(s.goals@, goal_key(), goal_id);
    ||| (cancel_decision(s, goal_id) is Fence && s.goals@[gi].revision.value >= i64::MAX)
    ||| exists|i: int|
        0 <= i < s.tasks@.len() && fenced_by(s.task_targets@, #[trigger] s.tasks@[i], goal_id)
            && s.tasks@[i].revision.value >= i64::MAX
}

/// What an accepted cancellation of `goal_id` leaves: the Goal finalizing
/// toward `Cancelled` (rewritten only when it was not already), every fenced
/// Task finalizing toward `Cancelled` one revision on, and nothing else of
/// the Goal and Task tables touched.
pub open spec fn goal_cancelled(before: Store, after: Store, goal_id: Seq<char>, value: Cancellation) -> bool {
    let gi = find_last(before.goals@, goal_key(), goal_id);
    let g = before.goals@[gi];
    let fence = cancel_decision(before, goal_id) is Fence;
    &&& value.goal.id@ == goal_id
    &&& value.goal.phase is Finalizing
    &&& value.goal.current_revision == g.current_revision
    &&& value.goal.revision.value == if fence {
        g.revision.value + 1
    } else {
        g.revision.value as int
    }
    &&& value.already_targeted == !fence
    &&& value.tasks_fenced == fence_count(before.task_targets@, before.tasks@, goal_id)
    &&& after.goals@ == if fence {
        before.goals@.update(gi, value.goal)
    } else {
        before.goals@
    }
    &&& forall|k: Seq<char>|
        #[trigger] goal_target_of(after.goal_targets@, k) == if k == goal_id {
            Some(GoalPhase::Cancelled)
        } else {
            goal_target_of(before.goal_targets@, k)
        }
    &&& after.tasks@.len() == before.tasks@.len()
    &&& forall|i: int|
        0 <= i < before.tasks@.len() ==> #[trigger] after.tasks@[i] == if fenced_by(
            before.task_targets@,
            before.tasks@[i],
            goal_id,
        ) {
            fenced_task(before.tasks@[i])
        } else {
            before.tasks@[i]
        }
    &&& forall|k: Seq<char>|
        #[trigger] task_target_of(after.task_targets@, k) == if fence_touches(before, goal_id, k) {
            Some((TaskPhase::Cancelled, goal_cancelled_reason()))
        } else {
            task_target_of(before.task_targets@, k)
        }
}

/// The terminal-target invariants survive any step that leaves the target
/// tables alone and loses no Goal or Task id.
pub proof fn lemma_targets_kept(before: Store, after: Store)
    requires
        before.targets_wf(),
        after.goal_targets == before.goal_targets,
        after.task_targets == before.task_targets,
        forall|k: Seq<char>| has_key(before.goals@, goal_key(), k) ==> #[trigger] has_key(after.goals@, goal_key(), k),
        forall|k: Seq<char>| has_key(before.tasks@, task_key(), k) ==> #[trigger] has_key(after.tasks@, task_key(), k),
    ensures
        after.targets_wf(),
{
    assert forall|i: int| 0 <= i < after.goal_targets@.len() implies has_key(
        after.goals@,
        goal_key(),
        (#[trigger] after.goal_targets@[i]).goal_id@,
    ) by {
        assert(has_key(before.goals@, goal_key(), before.goal_targets@[i].goal_id@));
    }
    assert forall|i: int| 0 <= i < after.task_targets@.len() implies has_key(
        after.tasks@,
        task_key(),
        (#[trigger] after.task_targets@[i]).task_id@,
    ) by {
        assert(has_key(before.tasks@, task_key(), before.task_targets@[i].task_id@));
    }
}

/// A table in which cancelling `goal_id` fences nothing counts zero.
pub proof fn lemma_fence_count_zero(targets: Seq<TaskTargetRow>, tasks: Seq<TaskRecord>, goal_id: Seq<char>)
    requires
        forall|i: int| 0 <= i < tasks.len() ==> !fenced_by(targets, #[trigger] tasks[i], goal_id),
    ensures
        fence_count(targets, tasks, goal_id) == 0,
    decreases tasks.len(),
{
    if tasks.len() > 0 {
        let front = tasks.drop_last();
        assert forall|i: int| 0 <= i < front.len() implies !fenced_by(targets, #[trigger] front[i], goal_id) by {
            assert(front[i] == tasks[i]);
        }
        lemma_fence_count_zero(targets, front, goal_id);
        assert(!fenced_by(targets, tasks[tasks.len() - 1], goal_id));
    }
}

fn find_goal_target(rows: &Vec<GoalTargetRow>, goal_id: &str) -> (r: Option<usize>)
    ensures
        match r {
            Some(i) => i < rows@.len() && i == find_last(rows@, goal_target_key(), goal_id@),
            None => find_last(rows@, goal_target_key(), goal_id@) == -1,
        },
{
    let mut i: usize = rows.len();
    while i > 0
        invariant
            i <= rows@.len(),
            forall|j: int| i <= j < rows@.len() ==> (goal_target_key())(#[trigger] rows@[j]) != goal_id@,
        decreases i,
    {
        i = i - 1;
        if str_eq(rows[i].goal_id.as_str(), goal_id) {
            proof {
                lemma_find_last_is(rows@, goal_target_key(), goal_id@, i as int);
            }
            return Some(i);
        }
    }
    proof {
        lemma_find_last(rows@, goal_target_key(), goal_id@);
    }
    None
}

fn find_task_target(rows: &Vec<TaskTargetRow>, task_id: &str) -> (r: Option<usize>)
    ensures
        match r {
            Some(i) => i < rows@.len() && i == find_last(rows@, task_target_key(), task_id@),
            None => find_last(rows@, task_target_key(), task_id@) == -1,
        },
{
    let mut i: usize = rows.len();
    while i > 0
        invariant
            i <= rows@.len(),
            forall|j: int| i <= j < rows@.len() ==> (task_target_key())(#[trigger] rows@[j]) != task_id@,
        decreases i,
    {
        i = i - 1;
        if str_eq(rows[i].task_id.as_str(), task_id) {
            proof {
                lemma_find_last_is(rows@, task_target_key(), task_id@, i as int);
            }
            return Some(i);
        }
    }
    proof {
        lemma_find_last(rows@, task_target_key(), task_id@);
    }
    None
}

/// Whether cancelling `goal_id` fences the Task `t`, given the stored
/// targets.
fn fences(targets: &Vec<TaskTargetRow>, t: &TaskRecord, goal_id: &str) -> (r: bool)
    ensures
        r == fenced_by(targets@, *t, goal_id@),
{
    if !str_eq(t.goal_id.as_str(), goal_id) || t.phase.is_terminal() {
        return false;
    }
    match find_task_target(targets, t.id.as_str()) {
        Some(ti) => !(targets[ti].terminal_target == TaskPhase::Cancelled),
        None => true,
    }
}

impl Store {
    /// Whether some Task the cancellation would fence has no revision left.
    fn fence_exhausted(&self, goal_id: &str) -> (r: bool)
        ensures
            r == exists|i: int|
                0 <= i < self.tasks@.len() && fenced_by(self.task_targets@, #[trigger] self.tasks@[i], goal_id@)
                    && self.tasks@[i].revision.value >= i64::MAX,
    {
        let mut i: usize = 0;
        while i < self.tasks.len()
            invariant
                i <= self.tasks@.len(),
                forall|j: int|
                    0 <= j < i ==> !(fenced_by(self.task_targets@, #[trigger] self.tasks@[j], goal_id@)
                        && self.tasks@[j].revision.value >= i64::MAX),
            decreases self.tasks@.len() - i,
        {
            if fences(&self.task_targets, &self.tasks[i], goal_id) && self.tasks[i].revision.value == i64::MAX {
                return true;
            }
            i = i + 1;
        }
        false
    }

    /// Drives every Task `fenced_by` the cancellation of `goal_id` to
    /// `Finalizing` targeting `Cancelled`, each through its own revision
    /// step, and returns how many moved.
    fn fence_tasks(&mut self, goal_id: &str) -> (count: usize)
        requires
            unique_by(old(self).tasks@, task_key()),
            unique_by(old(self).task_targets@, task_target_key()),
            forall|i: int|
                0 <= i < old(self).task_targets@.len() ==> has_key(
                    old(self).tasks@,
                    task_key(),
                    (#[trigger] old(self).task_targets@[i]).task_id@,
                ),
            !(exists|i: int|
                0 <= i < old(self).tasks@.len() && fenced_by(
                    old(self).task_targets@,
                    #[trigger] old(self).tasks@[i],
                    goal_id@,
                ) && old(self).tasks@[i].revision.value >= i64::MAX),
        ensures
            count == fence_count(old(self).task_targets@, old(self).tasks@, goal_id@),
            final(self).tasks@.len() == old(self).tasks@.len(),
            forall|i: int|
                0 <= i < old(self).tasks@.len() ==> #[trigger] final(self).tasks@[i] == if fenced_by(
                    old(self).task_targets@,
                    old(self).tasks@[i],
                    goal_id@,
                ) {
                    fenced_task(old(self).tasks@[i])
                } else {
                    old(self).tasks@[i]
                },
            forall|k: Seq<char>|
                #[trigger] task_target_of(final(self).task_targets@, k) == if fence_touches(*old(self), goal_id@, k) {
                    Some((TaskPhase::Cancelled, goal_cancelled_reason()))
                } else {
                    task_target_of(old(self).task_targets@, k)
                },
            unique_by(final(self).task_targets@, task_target_key()),
            forall|i: int|
                0 <= i < final(self).task_targets@.len() ==> has_key(
                    old(self).tasks@,
                    task_key(),
                    (#[trigger] final(self).task_targets@[i]).task_id@,
                ),
            (Store { tasks: old(self).tasks, task_targets: old(self).task_targets, ..*final(self) }) == *old(self),
    {
        let ghost before = *self;
        let n: usize = self.tasks.len();
        let mut count: usize = 0;
        let mut i: usize = 0;
        while i < n
            invariant
                n == before.tasks@.len(),
                self.tasks@.len() == n,
                i <= n,
                count <= i,
                unique_by(before.tasks@, task_key()),
                forall|j: int|
                    0 <= j < i ==> #[trigger] self.tasks@[j] == if fenced_by(
                        before.task_targets@,
                        before.tasks@[j],
                        goal_id@,
                    ) {
                        fenced_task(before.tasks@[j])
                    } else {
                        before.tasks@[j]
                    },
                forall|j: int| i <= j < n ==> #[trigger] self.tasks@[j] == before.tasks@[j],
                count == fence_count(before.task_targets@, before.tasks@.subrange(0, i as int), goal_id@),
                unique_by(self.task_targets@, task_target_key()),
                forall|j: int|
                    0 <= j < self.task_targets@.len() ==> has_key(
                        before.tasks@,
                        task_key(),
                        (#[trigger] self.task_targets@[j]).task_id@,
                    ),
                forall|k: Seq<char>|
                    #[trigger] task_target_of(self.task_targets@, k) == if exists|j: int|
                        0 <= j < i && (#[trigger] before.tasks@[j]).id@ == k && fenced_by(
                            before.task_targets@,
                            before.tasks@[j],
                            goal_id@,
                        ) {
                        Some((TaskPhase::Cancelled, goal_cancelled_reason()))
                    } else {
                        task_target_of(before.task_targets@, k)
                    },
                !(exists|j: int|
                    0 <= j < before.tasks@.len() && fenced_by(
                        before.task_targets@,
                        #[trigger] before.tasks@[j],
                        goal_id@,
                    ) && before.tasks@[j].revision.value >= i64::MAX),
                (Store { tasks: before.tasks, task_targets: before.task_targets, ..*self }) == before,
            decreases n - i,
        {
            let ghost id_i = before.tasks@[i as int].id@;
            proof {
                assert(before.tasks@.subrange(0, i as int + 1).drop_last() =~= before.tasks@.subrange(0, i as int));
                assert(before.tasks@.subrange(0, i as int + 1).last() == before.tasks@[i as int]);
                // No earlier Task shares this id, so the stored target is
                // still the original one.
                assert(!exists|j: int|
                    0 <= j < i && (#[trigger] before.tasks@[j]).id@ == id_i && fenced_by(
                        before.task_targets@,
                        before.tasks@[j],
                        goal_id@,
                    )) by {
                    assert forall|j: int| 0 <= j < i implies (#[trigger] before.tasks@[j]).id@ != id_i by {
                        assert((task_key())(before.tasks@[j]) != (task_key())(before.tasks@[i as int]));
                    }
                }
                assert(task_target_of(self.task_targets@, id_i) == task_target_of(before.task_targets@, id_i));
            }
            if fences(&self.task_targets, &self.tasks[i], goal_id) {
                let t = &self.tasks[i];
                let fenced = TaskRecord {
                    id: t.id.clone(),
                    goal_id: t.goal_id.clone(),
                    phase: TaskPhase::Finalizing,
                    created_graph_revision: t.created_graph_revision,
                    spec_digest: t.spec_digest,
                    revision: Revision { value: t.revision.value + 1 },
                    active_run_id: crate::text::copy_text_option(&t.active_run_id),
                };
                let row = TaskTargetRow {
                    task_id: t.id.clone(),
                    terminal_target: TaskPhase::Cancelled,
                    terminal_reason_json: "{\"code\":\"goal-cancelled\"}".to_owned(),
                };
                let ghost targets_before = self.task_targets@;
                proof {
                    assert forall|k: Seq<char>|
                        #[trigger] task_target_of(targets_before, k) == if exists|j: int|
                            0 <= j < i && (#[trigger] before.tasks@[j]).id@ == k && fenced_by(
                                before.task_targets@,
                                before.tasks@[j],
                                goal_id@,
                            ) {
                            Some((TaskPhase::Cancelled, goal_cancelled_reason()))
                        } else {
                            task_target_of(before.task_targets@, k)
                        } by {}
                    assert(fenced_by(before.task_targets@, before.tasks@[i as int], goal_id@));
                }
                match find_task_target(&self.task_targets, self.tasks[i].id.as_str()) {
                    Some(ti) => {
                        proof {
                            lemma_find_last(targets_before, task_target_key(), id_i);
                            lemma_unique_update(targets_before, task_target_key(), ti as int, row);
                            assert forall|k: Seq<char>|
                                find_last(targets_before.update(ti as int, row), task_target_key(), k) == find_last(
                                    targets_before,
                                    task_target_key(),
                                    k,
                                ) by {
                                lemma_find_last_update(targets_before, task_target_key(), ti as int, row, k);
                            }
                        }
                        self.task_targets.set(ti, row);
                    },
                    None => {
                        proof {
                            lemma_find_last(targets_before, task_target_key(), id_i);
                            lemma_unique_push(targets_before, task_target_key(), row);
                            assert forall|k: Seq<char>|
                                find_last(targets_before.push(row), task_target_key(), k) == if id_i == k {
                                    targets_before.len() as int
                                } else {
                                    find_last(targets_before, task_target_key(), k)
                                } by {
                                lemma_find_last_push(targets_before, task_target_key(), row, k);
                            }
                            assert(has_key(before.tasks@, task_key(), id_i)) by {
                                assert((task_key())(before.tasks@[i as int]) == id_i);
                            }
                        }
                        self.task_targets.push(row);
                    },
                }
                self.tasks.set(i, fenced);
                count = count + 1;
                proof {
                    assert(row.terminal_reason_json@ == goal_cancelled_reason());
                    assert(task_target_of(self.task_targets@, id_i) == Some(
                        (TaskPhase::Cancelled, goal_cancelled_reason()),
                    ));
                    assert forall|k: Seq<char>| k != id_i implies task_target_of(self.task_targets@, k)
                        == task_target_of(targets_before, k) by {
                        lemma_find_last(targets_before, task_target_key(), k);
                        lemma_find_last(targets_before, task_target_key(), id_i);
                    }
                    assert forall|k: Seq<char>|
                        #[trigger] task_target_of(self.task_targets@, k) == if exists|j: int|
                            0 <= j < i + 1 && (#[trigger] before.tasks@[j]).id@ == k && fenced_by(
                                before.task_targets@,
                                before.tasks@[j],
                                goal_id@,
                            ) {
                            Some((TaskPhase::Cancelled, goal_cancelled_reason()))
                        } else {
                            task_target_of(before.task_targets@, k)
                        } by {
                        if k == id_i {
                            assert(before.tasks@[i as int].id@ == k);
                        } else {
                            assert(task_target_of(self.task_targets@, k) == task_target_of(targets_before, k));
                            if exists|j: int|
                                0 <= j < i + 1 && (#[trigger] before.tasks@[j]).id@ == k && fenced_by(
                                    before.task_targets@,
                                    before.tasks@[j],
                                    goal_id@,
                                ) {
                                let j = choose|j: int|
                                    0 <= j < i + 1 && (#[trigger] before.tasks@[j]).id@ == k && fenced_by(
                                        before.task_targets@,
                                        before.tasks@[j],
                                        goal_id@,
                                    );
                                assert(j < i);
                            }
                        }
                    }
                    assert forall|j: int|
                        0 <= j < self.task_targets@.len() implies has_key(
                        before.tasks@,
                        task_key(),
                        (#[trigger] self.task_targets@[j]).task_id@,
                    ) by {
                        if j < targets_before.len() && self.task_targets@[j] == targets_before[j] {
                        } else {
                            assert((task_key())(before.tasks@[i as int]) == id_i);
                        }
                    }
                }
            } else {
                proof {
                    assert forall|k: Seq<char>|
                        #[trigger] task_target_of(self.task_targets@, k) == if exists|j: int|
                            0 <= j < i + 1 && (#[trigger] before.tasks@[j]).id@ == k && fenced_by(
                                before.task_targets@,
                                before.tasks@[j],
                                goal_id@,
                            ) {
                            Some((TaskPhase::Cancelled, goal_cancelled_reason()))
                        } else {
                            task_target_of(before.task_targets@, k)
                        } by {
                        if exists|j: int|
                            0 <= j < i + 1 && (#[trigger] before.tasks@[j]).id@ == k && fenced_by(
                                before.task_targets@,
                                before.tasks@[j],
                                goal_id@,
                            ) {
                            let j = choose|j: int|
                                0 <= j < i + 1 && (#[trigger] before.tasks@[j]).id@ == k && fenced_by(
                                    before.task_targets@,
                                    before.tasks@[j],
                                    goal_id@,
                                );
                            assert(j < i);
                        }
                    }
                }
            }
            i = i + 1;
        }
        proof {
            assert(before.tasks@.subrange(0, n as int) =~= before.tasks@);
            assert forall|k: Seq<char>|
                #[trigger] task_target_of(self.task_targets@, k) == if fence_touches(before, goal_id@, k) {
                    Some((TaskPhase::Cancelled, goal_cancelled_reason()))
                } else {
                    task_target_of(before.task_targets@, k)
                } by {
                if fence_touches(before, goal_id@, k) {
                    let j = choose|j: int|
                        0 <= j < before.tasks@.len() && (#[trigger] before.tasks@[j]).id@ == k && fenced_by(
                            before.task_targets@,
                            before.tasks@[j],
                            goal_id@,
                        );
                    assert(0 <= j < n && before.tasks@[j].id@ == k);
                }
            }
        }
        count
    }
}

impl Store {
    /// Drives a Goal, and every nonterminal Task it owns, toward `Cancelled`,
    /// under the command kernel.
    ///
    /// A Goal finalizing toward `Succeeded` or `Failed` is retargeted in
    /// place: it stays `Finalizing`, its target becomes `Cancelled`, and its
    /// nonterminal Tasks are fenced. Cancelling a Goal already targeting
    /// `Cancelled` changes no Goal phase and burns no revision. A terminal
    /// Goal refuses with [`StoreError::GoalNotCancellable`] and nothing is
    /// written, so the command consumes no identity; an unknown Goal is an
    /// invariant violation, since Goals are never deleted.
    pub fn cancel_goal(&mut self, command: &Command, goal_id: &str) -> (r: Result<
        Committed<Cancellation>,
        StoreError,
    >)
        requires
            old(self).wf(),
        ensures
            final(self).wf(),
            gate_outcome(*old(self), *final(self), *command, r),
            class_of(*old(self), *command) is Fresh ==> match cancel_decision(*old(self), goal_id@) {
                CancelDecision::GoalMissing => r matches Err(StoreError::InvariantViolated(_)) && *final(self)
                    == *old(self),
                CancelDecision::NotCancellable => {
                    let g = old(self).goals@[find_last(old(self).goals@, goal_key(), goal_id@)];
                    &&& r matches Err(StoreError::GoalNotCancellable { goal_id: gid, phase, terminal_target })
                    &&& gid@ == goal_id@
                    &&& phase == g.phase.spec_as_str()
                    &&& match goal_target_of(old(self).goal_targets@, goal_id@) {
                        None => terminal_target is None,
                        Some(p) => terminal_target matches Some(t) && t@ == p.spec_as_str()@,
                    }
                    &&& *final(self) == *old(self)
                },
                _ => if cancel_exhausted(*old(self), goal_id@) {
                    r matches Err(StoreError::InvariantViolated(_)) && *final(self) == *old(self)
                } else {
                    &&& r matches Ok(Committed::Executed { value, cursor })
                    &&& goal_cancelled(*old(self), *final(self), goal_id@, value)
                    &&& command_recorded(*old(self), *final(self), *command, cursor)
                    &&& (Store {
                        goals: old(self).goals,
                        goal_targets: old(self).goal_targets,
                        tasks: old(self).tasks,
                        task_targets: old(self).task_targets,
                        events: old(self).events,
                        next_sequence: old(self).next_sequence,
                        commands: old(self).commands,
                        ..*final(self)
                    }) == *old(self)
                },
            },
    {
        match self.command_gate(command) {
            Err(e) => return Err(e),
            Ok(Gate::Replayed { cursor, recorded_at }) => {
                return Ok(Committed::Replayed { cursor, recorded_at });
            },
            Ok(Gate::Fresh) => {},
        }
        let ghost before = *self;
        let gi: usize = match find_goal(&self.goals, goal_id) {
            Some(gi) => gi,
            None => {
                return Err(StoreError::InvariantViolated("the Goal to cancel does not exist".to_string()));
            },
        };
        let phase: GoalPhase = self.goals[gi].phase;
        let ti: Option<usize> = find_goal_target(&self.goal_targets, goal_id);
        let target: Option<GoalPhase> = match ti {
            Some(t) => Some(self.goal_targets[t].terminal_target),
            None => None,
        };
        let fence: bool = if phase == GoalPhase::Planning || phase == GoalPhase::Active || phase
            == GoalPhase::Evaluating {
            true
        } else if phase == GoalPhase::Finalizing && (target == Some(GoalPhase::Succeeded) || target == Some(
            GoalPhase::Failed,
        )) {
            true
        } else if phase == GoalPhase::Finalizing && target == Some(GoalPhase::Cancelled) {
            false
        } else {
            let shown: Option<String> = match target {
                Some(p) => Some(p.as_str().to_string()),
                None => None,
            };
            return Err(
                StoreError::GoalNotCancellable { goal_id: goal_id.to_owned(), phase: phase.as_str(), terminal_target: shown },
            );
        };
        let old_revision: i64 = self.goals[gi].revision.value;
        if (fence && old_revision == i64::MAX) || self.fence_exhausted(goal_id) {
            return Err(StoreError::InvariantViolated("a cancellation revision is exhausted".to_string()));
        }
        let goal = GoalRecord {
            id: self.goals[gi].id.clone(),
            phase: GoalPhase::Finalizing,
            current_revision: self.goals[gi].current_revision,
            revision: Revision { value: if fence { old_revision + 1 } else { old_revision } },
        };
        proof {
            lemma_find_last(before.goals@, goal_key(), goal_id@);
        }
        if fence {
            proof {
                lemma_unique_update(before.goals@, goal_key(), gi as int, goal);
                assert forall|k: Seq<char>|
                    has_key(before.goals@.update(gi as int, goal), goal_key(), k) == has_key(
                        before.goals@,
                        goal_key(),
                        k,
                    ) by {
                    lemma_has_key_update(before.goals@, goal_key(), gi as int, goal, k);
                }
            }
            self.goals.set(gi, goal.copy());
            let row = GoalTargetRow { goal_id: goal_id.to_owned(), terminal_target: GoalPhase::Cancelled };
            let ghost rows = self.goal_targets@;
            match ti {
                Some(t) => {
                    proof {
                        lemma_find_last(rows, goal_target_key(), goal_id@);
                        lemma_unique_update(rows, goal_target_key(), t as int, row);
                        assert forall|k: Seq<char>|
                            find_last(rows.update(t as int, row), goal_target_key(), k) == find_last(
                                rows,
                                goal_target_key(),
                                k,
                            ) by {
                            lemma_find_last_update(rows, goal_target_key(), t as int, row, k);
                        }
                    }
                    self.goal_targets.set(t, row);
                },
                None => {
                    proof {
                        lemma_find_last(rows, goal_target_key(), goal_id@);
                        lemma_unique_push(rows, goal_target_key(), row);
                        assert forall|k: Seq<char>|
                            find_last(rows.push(row), goal_target_key(), k) == if goal_id@ == k {
                                rows.len() as int
                            } else {
                                find_last(rows, goal_target_key(), k)
                            } by {
                            lemma_find_last_push(rows, goal_target_key(), row, k);
                        }
                    }
                    self.goal_targets.push(row);
                },
            }
            proof {
                assert forall|j: int|
                    0 <= j < self.goal_targets@.len() implies has_key(
                    self.goals@,
                    goal_key(),
                    (#[trigger] self.goal_targets@[j]).goal_id@,
                ) by {
                    if j < rows.len() && self.goal_targets@[j] == rows[j] {
                    } else {
                        assert((goal_key())(before.goals@[gi as int]) == goal_id@);
                    }
                }
                assert forall|j: int| 0 <= j < self.goals@.len() implies (#[trigger] self.goals@[j]).revision.value
                    >= 1 by {
                    if j != gi {
                        assert(self.goals@[j] == before.goals@[j]);
                    }
                }
            }
        }
        proof {
            assert forall|k: Seq<char>|
                #[trigger] goal_target_of(self.goal_targets@, k) == if k == goal_id@ {
                    Some(GoalPhase::Cancelled)
                } else {
                    goal_target_of(before.goal_targets@, k)
                } by {
                lemma_find_last(before.goal_targets@, goal_target_key(), k);
                lemma_find_last(before.goal_targets@, goal_target_key(), goal_id@);
            }
        }
        let tasks_fenced: usize = self.fence_tasks(goal_id);
        proof {
            assert forall|j: int| 0 <= j < self.tasks@.len() implies task_row_wf(#[trigger] self.tasks@[j]) by {
                assert(task_row_wf(before.tasks@[j]));
            }
            assert(unique_by(self.tasks@, task_key())) by {
                assert forall|a: int, b: int|
                    0 <= a < self.tasks@.len() && 0 <= b < self.tasks@.len() && a != b implies (task_key())(
                    #[trigger] self.tasks@[a],
                ) != (task_key())(#[trigger] self.tasks@[b]) by {
                    assert((task_key())(self.tasks@[a]) == (task_key())(before.tasks@[a]));
                    assert((task_key())(self.tasks@[b]) == (task_key())(before.tasks@[b]));
                }
            }
            assert forall|j: int|
                0 <= j < self.task_targets@.len() implies has_key(
                self.tasks@,
                task_key(),
                (#[trigger] self.task_targets@[j]).task_id@,
            ) by {
                let k = self.task_targets@[j].task_id@;
                assert(has_key(before.tasks@, task_key(), k));
                let w = choose|w: int| 0 <= w < before.tasks@.len() && (task_key())(#[trigger] before.tasks@[w]) == k;
                assert((task_key())(self.tasks@[w]) == k);
            }
            assert(self.planning_wf());
        }
        let value = Cancellation { goal, tasks_fenced, already_targeted: !fence };
        let ghost pre = *self;
        assert(class_of(pre, *command) is Fresh) by {
            assert(pre.commands == before.commands);
        }
        let cursor = self.record_command(command);
        Ok(Committed::Executed { value, cursor })
    }
}

} // verus!
