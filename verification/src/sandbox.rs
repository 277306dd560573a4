//! Durable Run-owned Sandbox authority.
//!
//! Each mutation runs under the command kernel: the fence, the ledger, the
//! mutation and its Event are one step. The stored constraints are the
//! store's invariants: a `Ready` Sandbox is observed `Present`, a
//! `Requested` or `Released` one is observed `Absent`, and a Run owns at
//! most one Sandbox that is not `Released`.

use vstd::prelude::*;

use crate::command::{class_of, command_recorded, gate_outcome, Command, CommandClass, Committed, Gate};
use crate::error::StoreError;
use crate::revision::Revision;
use crate::store::Store;
use crate::table::{find_last, has_key, lemma_find_last, lemma_find_last_is, lemma_unique_push, lemma_unique_update, unique_by};
use crate::text::str_eq;

verus! {

/// The lifecycle phase of a Sandbox.
#[derive(Debug, Clone, Copy, PartialEq, Eq, Structural)]
pub enum SandboxPhase {
    Requested,
    Preparing,
    Ready,
    Releasing,
    Released,
    Error,
}

/// The strongest factual observation about the external runtime.
#[derive(Debug, Clone, Copy, PartialEq, Eq, Structural)]
pub enum SandboxPresence {
    Present,
    Absent,
    Unknown,
}

/// One durable SandboxInstance row.
#[derive(Debug, Clone, PartialEq, Eq)]
pub struct SandboxRecord {
    pub id: String,
    pub run_id: String,
    pub sandbox_plan_digest: [u8; 32],
    pub environment_identity: String,
    pub phase: SandboxPhase,
    pub observed_presence: SandboxPresence,
    pub revision: Revision,
}

impl SandboxRecord {
    /// An equal copy of this record.
    pub fn copy(&self) -> (r: SandboxRecord)
        ensures
            r == *self,
    {
        SandboxRecord {
            id: self.id.clone(),
            run_id: self.run_id.clone(),
            sandbox_plan_digest: self.sandbox_plan_digest,
            environment_identity: self.environment_identity.clone(),
            phase: self.phase,
            observed_presence: self.observed_presence,
            revision: self.revision,
        }
    }
}

/// What a Sandbox is durably bound to at creation.
#[derive(Debug, Clone, Copy)]
pub struct SandboxBinding<'a> {
    pub run_id: &'a str,
    pub sandbox_plan_digest: &'a [u8; 32],
    pub environment_identity: &'a str,
}

/// One controller-owned probe evidence record to persist.
#[derive(Debug, Clone, Copy)]
pub struct SandboxProbeEvidence<'a> {
    pub sandbox_id: &'a str,
    pub probe_name: &'a str,
    pub expected: &'a str,
    pub observed: &'a str,
    pub passed: bool,
    pub backend_descriptor: &'a str,
    pub backend_version: &'a str,
    pub platform: &'a str,
    pub architecture: &'a str,
    pub probe_implementation_version: &'a str,
}

/// One durable row of probe evidence.
#[derive(Debug, Clone, PartialEq, Eq)]
pub struct SandboxProbeRecord {
    pub id: i64,
    pub sandbox_id: String,
    pub probe_name: String,
    pub expected: String,
    pub observed: String,
    pub passed: bool,
    pub backend_descriptor: String,
    pub backend_version: String,
    pub platform: String,
    pub architecture: String,
    pub probe_implementation_version: String,
    pub recorded_at: i64,
}

impl SandboxProbeRecord {
    /// An equal copy of this record.
    pub fn copy(&self) -> (r: SandboxProbeRecord)
        ensures
            r == *self,
    {
        SandboxProbeRecord {
            id: self.id,
            sandbox_id: self.sandbox_id.clone(),
            probe_name: self.probe_name.clone(),
            expected: self.expected.clone(),
            observed: self.observed.clone(),
            passed: self.passed,
            backend_descriptor: self.backend_descriptor.clone(),
            backend_version: self.backend_version.clone(),
            platform: self.platform.clone(),
            architecture: self.architecture.clone(),
            probe_implementation_version: self.probe_implementation_version.clone(),
            recorded_at: self.recorded_at,
        }
    }
}

pub open spec fn sandbox_id_key() -> spec_fn(SandboxRecord) -> Seq<char> {
    |r: SandboxRecord| r.id@
}

pub open spec fn probe_key() -> spec_fn(SandboxProbeRecord) -> i64 {
    |r: SandboxProbeRecord| r.id
}

/// The stored presence constraints of a phase.
pub open spec fn presence_allowed(phase: SandboxPhase, presence: SandboxPresence) -> bool {
    &&& phase is Ready ==> presence is Present
    &&& phase is Requested ==> presence is Absent
    &&& phase is Released ==> presence is Absent
}

/// The stored constraints of one Sandbox row.
pub open spec fn sandbox_row_wf(r: SandboxRecord) -> bool {
    &&& presence_allowed(r.phase, r.observed_presence)
    &&& r.revision.value >= 1
    &&& 1 <= r.id@.len() <= 128
    &&& r.environment_identity@.len() > 0
}

/// Whether the Sandbox at `i` is current, that is not `Released`, for `run_id`.
pub open spec fn current_for(r: SandboxRecord, run_id: Seq<char>) -> bool {
    r.run_id@ == run_id && !(r.phase is Released)
}

/// Whether the Run owns a current Sandbox.
pub open spec fn has_current_sandbox(rows: Seq<SandboxRecord>, run_id: Seq<char>) -> bool {
    exists|i: int| 0 <= i < rows.len() && current_for(#[trigger] rows[i], run_id)
}

impl Store {
    /// The Sandbox family's invariants.
    pub open spec fn sandbox_wf(&self) -> bool {
        &&& unique_by(self.sandboxes@, sandbox_id_key())
        &&& forall|i: int| 0 <= i < self.sandboxes@.len() ==> sandbox_row_wf(#[trigger] self.sandboxes@[i])
        &&& forall|i: int, j: int|
            0 <= i < self.sandboxes@.len() && 0 <= j < self.sandboxes@.len() && i != j
                && !(#[trigger] self.sandboxes@[i]).phase.is_released()
                && !(#[trigger] self.sandboxes@[j]).phase.is_released()
                ==> self.sandboxes@[i].run_id@ != self.sandboxes@[j].run_id@
        &&& unique_by(self.probe_results@, probe_key())
    }
}

impl SandboxPhase {
    pub open spec fn is_released(self) -> bool {
        self is Released
    }
}

fn find_sandbox(rows: &Vec<SandboxRecord>, id: &str) -> (r: Option<usize>)
    ensures
        match r {
            Some(i) => i < rows@.len() && i == find_last(rows@, sandbox_id_key(), id@),
            None => find_last(rows@, sandbox_id_key(), id@) == -1,
        },
{
    let mut i: usize = rows.len();
    while i > 0
        invariant
            i <= rows@.len(),
            forall|j: int| i <= j < rows@.len() ==> (sandbox_id_key())(#[trigger] rows@[j]) != id@,
        decreases i,
    {
        i = i - 1;
        if str_eq(rows[i].id.as_str(), id) {
            proof {
                lemma_find_last_is(rows@, sandbox_id_key(), id@, i as int);
            }
            return Some(i);
        }
    }
    proof {
        lemma_find_last(rows@, sandbox_id_key(), id@);
    }
    None
}

/// The index of the Run's current Sandbox, when it owns one.
fn find_current_sandbox(rows: &Vec<SandboxRecord>, run_id: &str) -> (r: Option<usize>)
    ensures
        match r {
            Some(i) => i < rows@.len() && current_for(rows@[i as int], run_id@),
            None => !has_current_sandbox(rows@, run_id@),
        },
{
    let mut i: usize = 0;
    while i < rows.len()
        invariant
            i <= rows@.len(),
            forall|j: int| 0 <= j < i ==> !current_for(#[trigger] rows@[j], run_id@),
        decreases rows@.len() - i,
    {
        if rows[i].phase != SandboxPhase::Released && str_eq(rows[i].run_id.as_str(), run_id) {
            return Some(i);
        }
        i = i + 1;
    }
    None
}

/// Whether a Sandbox other than the one at `skip` is current for the Run.
pub open spec fn other_current(rows: Seq<SandboxRecord>, run_id: Seq<char>, skip: int) -> bool {
    exists|i: int| 0 <= i < rows.len() && i != skip && current_for(#[trigger] rows[i], run_id)
}

fn find_other_current(rows: &Vec<SandboxRecord>, run_id: &str, skip: usize) -> (r: bool)
    ensures
        r == other_current(rows@, run_id@, skip as int),
{
    let mut i: usize = 0;
    while i < rows.len()
        invariant
            i <= rows@.len(),
            forall|j: int| 0 <= j < i && j != skip ==> !current_for(#[trigger] rows@[j], run_id@),
        decreases rows@.len() - i,
    {
        if i != skip && rows[i].phase != SandboxPhase::Released && str_eq(rows[i].run_id.as_str(), run_id) {
            return true;
        }
        i = i + 1;
    }
    false
}

/// The phase a transition moves a row to: the named one, or its own when
/// only presence changes.
pub open spec fn target_phase(row: SandboxRecord, phase: Option<SandboxPhase>) -> SandboxPhase {
    match phase {
        Some(p) => p,
        None => row.phase,
    }
}

/// What a Sandbox transition decides on `s`, after any argument check.
pub enum SandboxStep {
    /// The Sandbox is missing (`None`) or has moved (`Some`).
    Stale(Option<i64>),
    /// The Sandbox is not in the phase the transition starts from.
    WrongPhase,
    /// The new row would break a stored constraint.
    Constraint,
    /// The revision counter has no room left.
    Exhausted,
    /// Every precondition holds.
    Admitted,
}

/// The decision moving Sandbox `id` at `expected` to `(phase, presence)`
/// reaches, from the phase `from` when one is required.
pub open spec fn step_decision(
    s: Store,
    id: Seq<char>,
    expected: i64,
    from: Option<SandboxPhase>,
    phase: Option<SandboxPhase>,
    presence: SandboxPresence,
) -> SandboxStep {
    let si = find_last(s.sandboxes@, sandbox_id_key(), id);
    let row = s.sandboxes@[si];
    let target = target_phase(row, phase);
    if si < 0 {
        SandboxStep::Stale(None)
    } else if row.revision.value != expected {
        SandboxStep::Stale(Some(row.revision.value))
    } else if from is Some && row.phase != from->0 {
        SandboxStep::WrongPhase
    } else if !presence_allowed(target, presence) || (row.phase is Released && !(target is Released)
        && other_current(s.sandboxes@, row.run_id@, si)) {
        SandboxStep::Constraint
    } else if expected >= i64::MAX {
        SandboxStep::Exhausted
    } else {
        SandboxStep::Admitted
    }
}

/// The Sandbox row at `id` moved to `(phase, presence)` under a new
/// revision, returned as `rec`; every other row untouched.
pub open spec fn sandbox_moved(
    before: Store,
    after: Store,
    id: Seq<char>,
    phase: SandboxPhase,
    presence: SandboxPresence,
    rec: SandboxRecord,
) -> bool {
    let si = find_last(before.sandboxes@, sandbox_id_key(), id);
    let o = before.sandboxes@[si as int];
    &&& after.sandboxes@ == before.sandboxes@.update(si, rec)
    &&& rec.id == o.id && rec.run_id == o.run_id
    &&& rec.sandbox_plan_digest == o.sandbox_plan_digest
    &&& rec.environment_identity == o.environment_identity
    &&& rec.phase == phase && rec.observed_presence == presence
    &&& rec.revision.value == o.revision.value + 1
}

/// What a named transition from `from` to `to` owes, whatever else it
/// checks. One that executes found Sandbox `id` at the expected revision in
/// `from`, and left it in `to` one revision on; a fresh command against the
/// Sandbox at the expected revision in any other phase is refused as an
/// invariant violation with nothing written.
pub open spec fn starts_only_from(
    before: Store,
    after: Store,
    c: Command,
    id: Seq<char>,
    expected: i64,
    from: SandboxPhase,
    to: SandboxPhase,
    r: Result<Committed<SandboxRecord>, StoreError>,
) -> bool {
    let si = find_last(before.sandboxes@, sandbox_id_key(), id);
    &&& (r matches Ok(Committed::Executed { value, .. }) ==> {
        &&& si >= 0
        &&& before.sandboxes@[si].phase == from
        &&& before.sandboxes@[si].revision.value == expected
        &&& value.phase == to
        &&& value.revision.value == expected + 1
        &&& after.sandboxes@[si] == value
    })
    &&& (class_of(before, c) is Fresh && si >= 0 && before.sandboxes@[si].revision.value == expected
        && before.sandboxes@[si].phase != from) ==> (r matches Err(StoreError::InvariantViolated(_)) && after == before)
}

/// A transition's complete contract, shared by every Sandbox command that
/// moves a row: the kernel's gate, the refusal each decision owes with the
/// state unchanged, and on admission the moved row, the command's trace and
/// nothing else.
pub open spec fn transition_contract(
    before: Store,
    after: Store,
    c: Command,
    id: Seq<char>,
    expected: i64,
    guard_fails: bool,
    from: Option<SandboxPhase>,
    phase: Option<SandboxPhase>,
    presence: SandboxPresence,
    r: Result<Committed<SandboxRecord>, StoreError>,
) -> bool {
    &&& gate_outcome(before, after, c, r)
    &&& class_of(before, c) is Fresh ==> if guard_fails {
        r matches Err(StoreError::InvariantViolated(_)) && after == before
    } else {
        match step_decision(before, id, expected, from, phase, presence) {
            SandboxStep::Stale(actual) => (r matches Err(StoreError::RevisionConflict { table, id: rid, expected: e, actual: a })
                && table@ == "sandbox_instances"@ && rid@ == id && e == expected && a == actual
                && after == before),
            SandboxStep::WrongPhase => (r matches Err(StoreError::InvariantViolated(_)) && after == before),
            SandboxStep::Constraint => (r matches Err(StoreError::ConstraintViolated(_)) && after == before),
            SandboxStep::Exhausted => (r matches Err(StoreError::InvariantViolated(_)) && after == before),
            SandboxStep::Admitted => {
                &&& r matches Ok(Committed::Executed { value, cursor })
                &&& sandbox_moved(
                    before,
                    after,
                    id,
                    target_phase(before.sandboxes@[find_last(before.sandboxes@, sandbox_id_key(), id)], phase),
                    presence,
                    value,
                )
                &&& command_recorded(before, after, c, cursor)
                &&& (Store {
                    sandboxes: before.sandboxes,
                    events: before.events,
                    next_sequence: before.next_sequence,
                    commands: before.commands,
                    ..after
                }) == before
            },
        }
    }
}

impl Store {
    /// Moves Sandbox `id` at `expected` to `(phase, presence)` under the
    /// command kernel, from `from` when a source phase is required.
    fn sandbox_transition(
        &mut self,
        command: &Command,
        id: &str,
        expected: Revision,
        guard_fails: bool,
        from: Option<SandboxPhase>,
        phase: Option<SandboxPhase>,
        presence: SandboxPresence,
    ) -> (r: Result<Committed<SandboxRecord>, StoreError>)
        requires
            old(self).wf(),
        ensures
            final(self).wf(),
            transition_contract(*old(self), *final(self), *command, id@, expected.value, guard_fails, from, phase, presence, r),
    {
        match self.command_gate(command) {
            Err(e) => return Err(e),
            Ok(Gate::Replayed { cursor, recorded_at }) => {
                return Ok(Committed::Replayed { cursor, recorded_at });
            },
            Ok(Gate::Fresh) => {},
        }
        if guard_fails {
            return Err(StoreError::InvariantViolated("a release or failure path cannot record Present".to_string()));
        }
        let si: usize = match find_sandbox(&self.sandboxes, id) {
            Some(i) => i,
            None => {
                return Err(
                    StoreError::RevisionConflict {
                        table: "sandbox_instances",
                        id: id.to_owned(),
                        expected: expected.value,
                        actual: None,
                    },
                );
            },
        };
        let current: i64 = self.sandboxes[si].revision.value;
        if current != expected.value {
            return Err(
                StoreError::RevisionConflict {
                    table: "sandbox_instances",
                    id: id.to_owned(),
                    expected: expected.value,
                    actual: Some(current),
                },
            );
        }
        match from {
            Some(required) => {
                if self.sandboxes[si].phase != required {
                    return Err(
                        StoreError::InvariantViolated("the Sandbox is not in the phase this transition starts from".to_string()),
                    );
                }
            },
            None => {},
        }
        let target: SandboxPhase = match phase {
            Some(p) => p,
            None => self.sandboxes[si].phase,
        };
        let allowed: bool = (target != SandboxPhase::Ready || presence == SandboxPresence::Present) && (target
            != SandboxPhase::Requested || presence == SandboxPresence::Absent) && (target != SandboxPhase::Released
            || presence == SandboxPresence::Absent);
        let reopens: bool = self.sandboxes[si].phase == SandboxPhase::Released && target != SandboxPhase::Released
            && find_other_current(&self.sandboxes, self.sandboxes[si].run_id.as_str(), si);
        if !allowed || reopens {
            return Err(StoreError::ConstraintViolated("the Sandbox row would break a stored constraint".to_string()));
        }
        if current >= i64::MAX {
            return Err(StoreError::InvariantViolated("the Sandbox revision is exhausted".to_string()));
        }
        let ghost before = *self;
        let o = &self.sandboxes[si];
        let rec = SandboxRecord {
            id: o.id.clone(),
            run_id: o.run_id.clone(),
            sandbox_plan_digest: o.sandbox_plan_digest,
            environment_identity: o.environment_identity.clone(),
            phase: target,
            observed_presence: presence,
            revision: Revision { value: current + 1 },
        };
        let value = rec.copy();
        proof {
            lemma_unique_update(self.sandboxes@, sandbox_id_key(), si as int, rec);
        }
        self.sandboxes.set(si, rec);
        proof {
            let sb = self.sandboxes@;
            assert forall|i: int| 0 <= i < sb.len() implies sandbox_row_wf(#[trigger] sb[i]) by {
                if i != si {
                    assert(sb[i] == before.sandboxes@[i]);
                }
            }
            assert forall|i: int, j: int|
                0 <= i < sb.len() && 0 <= j < sb.len() && i != j && !(#[trigger] sb[i]).phase.is_released()
                    && !(#[trigger] sb[j]).phase.is_released() implies sb[i].run_id@ != sb[j].run_id@ by {
                if i == si {
                    assert(sb[j] == before.sandboxes@[j]);
                    if before.sandboxes@[si as int].phase is Released {
                        assert(!current_for(before.sandboxes@[j], before.sandboxes@[si as int].run_id@));
                    }
                } else if j == si {
                    assert(sb[i] == before.sandboxes@[i]);
                    if before.sandboxes@[si as int].phase is Released {
                        assert(!current_for(before.sandboxes@[i], before.sandboxes@[si as int].run_id@));
                    }
                } else {
                    assert(sb[i] == before.sandboxes@[i]);
                    assert(sb[j] == before.sandboxes@[j]);
                }
            }
            assert(self.wf());
        }
        let ghost mid = *self;
        assert(class_of(mid, *command) is Fresh) by {
            assert(mid.commands == before.commands);
        }
        let cursor = self.record_command(command);
        proof {
            assert(self.sandboxes == mid.sandboxes);
        }
        Ok(Committed::Executed { value, cursor })
    }

    /// Records that provisioning is authorized: `Requested -> Preparing`,
    /// external state now unknown. Commits before any container-runtime
    /// side effect.
    pub fn begin_sandbox_preparation(&mut self, command: &Command, sandbox_key: &str, expected: Revision) -> (r: Result<
        Committed<SandboxRecord>,
        StoreError,
    >)
        requires
            old(self).wf(),
        ensures
            final(self).wf(),
            transition_contract(*old(self), *final(self), *command, sandbox_key@, expected.value, false,
                Some(SandboxPhase::Requested), Some(SandboxPhase::Preparing) , SandboxPresence::Unknown, r),
            starts_only_from(*old(self), *final(self), *command, sandbox_key@, expected.value, SandboxPhase::Requested,
                SandboxPhase::Preparing, r),
    {
        let r = self.sandbox_transition(command, sandbox_key, expected, false, Some(SandboxPhase::Requested),
            Some(SandboxPhase::Preparing), SandboxPresence::Unknown);
        proof {
            crate::laws::law_sandbox_transition_starts_from_its_source(*old(self), *self, *command, sandbox_key@,
                expected.value, false, SandboxPhase::Requested, SandboxPhase::Preparing, SandboxPresence::Unknown, r);
        }
        r
    }

    /// Records verified provisioning: `Preparing -> Ready`, observed
    /// `Present`.
    pub fn complete_sandbox_preparation(&mut self, command: &Command, sandbox_key: &str, expected: Revision) -> (r: Result<
        Committed<SandboxRecord>,
        StoreError,
    >)
        requires
            old(self).wf(),
        ensures
            final(self).wf(),
            transition_contract(*old(self), *final(self), *command, sandbox_key@, expected.value, false,
                Some(SandboxPhase::Preparing), Some(SandboxPhase::Ready) , SandboxPresence::Present, r),
            starts_only_from(*old(self), *final(self), *command, sandbox_key@, expected.value, SandboxPhase::Preparing,
                SandboxPhase::Ready, r),
    {
        let r = self.sandbox_transition(command, sandbox_key, expected, false, Some(SandboxPhase::Preparing),
            Some(SandboxPhase::Ready), SandboxPresence::Present);
        proof {
            crate::laws::law_sandbox_transition_starts_from_its_source(*old(self), *self, *command, sandbox_key@,
                expected.value, false, SandboxPhase::Preparing, SandboxPhase::Ready, SandboxPresence::Present, r);
        }
        r
    }

    /// Records that release is authorized: `Ready -> Releasing`, external
    /// state now unknown.
    pub fn begin_sandbox_release(&mut self, command: &Command, sandbox_key: &str, expected: Revision) -> (r: Result<
        Committed<SandboxRecord>,
        StoreError,
    >)
        requires
            old(self).wf(),
        ensures
            final(self).wf(),
            transition_contract(*old(self), *final(self), *command, sandbox_key@, expected.value, false,
                Some(SandboxPhase::Ready), Some(SandboxPhase::Releasing) , SandboxPresence::Unknown, r),
            starts_only_from(*old(self), *final(self), *command, sandbox_key@, expected.value, SandboxPhase::Ready,
                SandboxPhase::Releasing, r),
    {
        let r = self.sandbox_transition(command, sandbox_key, expected, false, Some(SandboxPhase::Ready),
            Some(SandboxPhase::Releasing), SandboxPresence::Unknown);
        proof {
            crate::laws::law_sandbox_transition_starts_from_its_source(*old(self), *self, *command, sandbox_key@,
                expected.value, false, SandboxPhase::Ready, SandboxPhase::Releasing, SandboxPresence::Unknown, r);
        }
        r
    }

    /// Records established external absence: `Releasing -> Released`,
    /// freeing the Run's Sandbox slot. `Present` is refused on a release
    /// path, and only `Absent` satisfies the stored constraint.
    pub fn complete_sandbox_release(
        &mut self,
        command: &Command,
        sandbox_key: &str,
        expected: Revision,
        observed: SandboxPresence,
    ) -> (r: Result<Committed<SandboxRecord>, StoreError>)
        requires
            old(self).wf(),
        ensures
            final(self).wf(),
            transition_contract(*old(self), *final(self), *command, sandbox_key@, expected.value,
                observed is Present, Some(SandboxPhase::Releasing), Some(SandboxPhase::Released) , observed, r),
            starts_only_from(*old(self), *final(self), *command, sandbox_key@, expected.value, SandboxPhase::Releasing,
                SandboxPhase::Released, r),
    {
        let r = self.sandbox_transition(command, sandbox_key, expected, observed == SandboxPresence::Present,
            Some(SandboxPhase::Releasing), Some(SandboxPhase::Released), observed);
        proof {
            crate::laws::law_sandbox_transition_starts_from_its_source(*old(self), *self, *command, sandbox_key@,
                expected.value, observed is Present, SandboxPhase::Releasing, SandboxPhase::Released, observed, r);
        }
        r
    }

    /// Records a failed provisioning or release with what is actually
    /// known about external state: the Sandbox moves to `Error` from any
    /// phase. `Present` is refused on a failure path.
    pub fn fail_sandbox(
        &mut self,
        command: &Command,
        sandbox_key: &str,
        expected: Revision,
        observed: SandboxPresence,
    ) -> (r: Result<Committed<SandboxRecord>, StoreError>)
        requires
            old(self).wf(),
        ensures
            final(self).wf(),
            transition_contract(*old(self), *final(self), *command, sandbox_key@, expected.value,
                observed is Present, None, Some(SandboxPhase::Error) , observed, r),
    {
        self.sandbox_transition(command, sandbox_key, expected, observed == SandboxPresence::Present, None,
            Some(SandboxPhase::Error), observed)
    }
}

} // verus!

verus! {

/// What creating a Sandbox decides on `s`.
pub enum CreateSandboxDecision {
    /// The Run already owns a current Sandbox.
    AlreadyCurrent,
    /// The identity is malformed or taken, or the environment is empty.
    Constraint,
    /// Every precondition holds.
    Admitted,
}

pub open spec fn create_sandbox_decision(s: Store, id: Seq<char>, b: SandboxBinding) -> CreateSandboxDecision {
    if has_current_sandbox(s.sandboxes@, b.run_id@) {
        CreateSandboxDecision::AlreadyCurrent
    } else if !(1 <= id.len() <= 128) || b.environment_identity@.len() == 0 || has_key(
        s.sandboxes@,
        sandbox_id_key(),
        id,
    ) {
        CreateSandboxDecision::Constraint
    } else {
        CreateSandboxDecision::Admitted
    }
}

/// The Sandbox a creation records: `Requested`, observed `Absent`, at
/// revision 1, bound to the Run, plan and environment.
pub open spec fn sandbox_created(before: Store, after: Store, id: Seq<char>, b: SandboxBinding, rec: SandboxRecord) -> bool {
    &&& after.sandboxes@ == before.sandboxes@.push(rec)
    &&& rec.id@ == id && rec.run_id@ == b.run_id@
    &&& rec.sandbox_plan_digest@ == b.sandbox_plan_digest@
    &&& rec.environment_identity@ == b.environment_identity@
    &&& rec.phase is Requested && rec.observed_presence is Absent
    &&& rec.revision.value == 1
}

/// The largest probe evidence id, 0 when there is none.
pub open spec fn max_probe_id(rows: Seq<SandboxProbeRecord>) -> int
    decreases rows.len(),
{
    if rows.len() == 0 {
        0
    } else if rows.last().id > max_probe_id(rows.drop_last()) {
        rows.last().id as int
    } else {
        max_probe_id(rows.drop_last())
    }
}

proof fn lemma_max_probe_id(rows: Seq<SandboxProbeRecord>)
    ensures
        0 <= max_probe_id(rows) <= i64::MAX,
        forall|i: int| 0 <= i < rows.len() ==> (#[trigger] rows[i]).id <= max_probe_id(rows),
    decreases rows.len(),
{
    if rows.len() > 0 {
        lemma_max_probe_id(rows.drop_last());
        assert forall|i: int| 0 <= i < rows.len() implies (#[trigger] rows[i]).id <= max_probe_id(rows) by {
            if i < rows.len() - 1 {
                assert(rows[i] == rows.drop_last()[i]);
            }
        }
    }
}

fn next_probe_base(rows: &Vec<SandboxProbeRecord>) -> (r: i64)
    ensures
        r == max_probe_id(rows@),
{
    let mut best: i64 = 0;
    let mut i: usize = 0;
    while i < rows.len()
        invariant
            i <= rows@.len(),
            best == max_probe_id(rows@.subrange(0, i as int)),
        decreases rows@.len() - i,
    {
        proof {
            let next = rows@.subrange(0, i + 1);
            assert(next.drop_last() =~= rows@.subrange(0, i as int));
            assert(next.last() == rows@[i as int]);
        }
        if rows[i].id > best {
            best = rows[i].id;
        }
        i = i + 1;
    }
    assert(rows@.subrange(0, rows@.len() as int) =~= rows@);
    best
}

/// `x` inserted into `s` after every record recorded no later than it: the
/// step of a stable ordering by `recorded_at`.
pub open spec fn insert_by_time(s: Seq<SandboxProbeRecord>, x: SandboxProbeRecord) -> Seq<SandboxProbeRecord>
    decreases s.len(),
{
    if s.len() == 0 {
        seq![x]
    } else if s.last().recorded_at <= x.recorded_at {
        s.push(x)
    } else {
        insert_by_time(s.drop_last(), x).push(s.last())
    }
}

/// The probe evidence of one Sandbox, oldest first: stably ordered by
/// `recorded_at`, ties in the order they were recorded.
pub open spec fn probes_by_time(rows: Seq<SandboxProbeRecord>, sandbox_id: Seq<char>) -> Seq<SandboxProbeRecord>
    decreases rows.len(),
{
    if rows.len() == 0 {
        Seq::empty()
    } else {
        let rest = probes_by_time(rows.drop_last(), sandbox_id);
        if rows.last().sandbox_id@ == sandbox_id {
            insert_by_time(rest, rows.last())
        } else {
            rest
        }
    }
}

/// Whether a sequence of records is ordered by `recorded_at`.
pub open spec fn time_ordered(s: Seq<SandboxProbeRecord>) -> bool {
    forall|i: int, j: int| 0 <= i < j < s.len() ==> #[trigger] s[i].recorded_at <= #[trigger] s[j].recorded_at
}

proof fn lemma_insert_by_time(s: Seq<SandboxProbeRecord>, x: SandboxProbeRecord)
    requires
        time_ordered(s),
    ensures
        time_ordered(insert_by_time(s, x)),
        insert_by_time(s, x).len() == s.len() + 1,
        insert_by_time(s, x).to_multiset() == s.to_multiset().insert(x),
    decreases s.len(),
{
    broadcast use vstd::seq_lib::group_seq_properties;
    broadcast use vstd::multiset::group_multiset_axioms;
    if s.len() == 0 {
        assert(seq![x] =~= Seq::<SandboxProbeRecord>::empty().push(x));
    } else if s.last().recorded_at <= x.recorded_at {
        let r = s.push(x);
        assert forall|i: int, j: int| 0 <= i < j < r.len() implies #[trigger] r[i].recorded_at <= #[trigger] r[j].recorded_at by {
            if j == r.len() - 1 && i < s.len() - 1 {
                assert(s[i].recorded_at <= s[s.len() - 1].recorded_at);
            }
        }
    } else {
        let front = s.drop_last();
        assert forall|i: int, j: int| 0 <= i < j < front.len() implies #[trigger] front[i].recorded_at <= #[trigger] front[j].recorded_at by {
            assert(front[i] == s[i] && front[j] == s[j]);
        }
        lemma_insert_by_time(front, x);
        let inner = insert_by_time(front, x);
        let r = inner.push(s.last());
        assert(r == insert_by_time(s, x));
        assert forall|i: int| 0 <= i < inner.len() implies #[trigger] inner[i].recorded_at <= s.last().recorded_at by {
            assert(inner.to_multiset().count(inner[i]) > 0);
            assert(front.to_multiset().insert(x).count(inner[i]) > 0);
            if inner[i] != x {
                assert(front.to_multiset().count(inner[i]) > 0);
                assert(front.contains(inner[i]));
                let k = choose|k: int| 0 <= k < front.len() && front[k] == inner[i];
                assert(s[k] == front[k]);
                assert(s[k].recorded_at <= s[s.len() - 1].recorded_at);
            }
        }
        assert forall|i: int, j: int| 0 <= i < j < r.len() implies #[trigger] r[i].recorded_at <= #[trigger] r[j].recorded_at by {
            if j == r.len() - 1 {
                assert(r[i] == inner[i]);
            } else {
                assert(r[i] == inner[i] && r[j] == inner[j]);
            }
        }
        assert(s =~= front.push(s.last()));
    }
}

/// The probe evidence a Sandbox reports is ordered by `recorded_at`, and is
/// exactly that Sandbox's evidence.
pub proof fn lemma_probes_by_time(rows: Seq<SandboxProbeRecord>, sandbox_id: Seq<char>)
    ensures
        time_ordered(probes_by_time(rows, sandbox_id)),
        probes_by_time(rows, sandbox_id).to_multiset() == rows.filter(
            |r: SandboxProbeRecord| r.sandbox_id@ == sandbox_id,
        ).to_multiset(),
    decreases rows.len(),
{
    broadcast use vstd::seq_lib::group_seq_properties;
    broadcast use vstd::multiset::group_multiset_axioms;
    let pred = |r: SandboxProbeRecord| r.sandbox_id@ == sandbox_id;
    if rows.len() == 0 {
        assert(rows.filter(pred) =~= Seq::<SandboxProbeRecord>::empty());
    } else {
        lemma_probes_by_time(rows.drop_last(), sandbox_id);
        reveal(Seq::filter);
        assert(rows.drop_last() =~= rows.subrange(0, rows.len() - 1));
        if rows.last().sandbox_id@ == sandbox_id {
            lemma_insert_by_time(probes_by_time(rows.drop_last(), sandbox_id), rows.last());
        }
    }
}

fn insert_probe_by_time(out: &mut Vec<SandboxProbeRecord>, x: SandboxProbeRecord)
    ensures
        final(out)@ == insert_by_time(old(out)@, x),
    decreases old(out)@.len(),
{
    let n: usize = out.len();
    if n == 0 {
        out.push(x);
        assert(out@ =~= seq![x]);
        return;
    }
    if out[n - 1].recorded_at <= x.recorded_at {
        out.push(x);
    } else {
        let ghost before = out@;
        let last = out.pop().unwrap();
        assert(out@ == before.drop_last());
        insert_probe_by_time(out, x);
        out.push(last);
    }
}

fn probes_of(rows: &Vec<SandboxProbeRecord>, sandbox_id: &str) -> (r: Vec<SandboxProbeRecord>)
    ensures
        r@ == probes_by_time(rows@, sandbox_id@),
{
    let mut out: Vec<SandboxProbeRecord> = Vec::new();
    let mut i: usize = 0;
    while i < rows.len()
        invariant
            i <= rows@.len(),
            out@ == probes_by_time(rows@.subrange(0, i as int), sandbox_id@),
        decreases rows@.len() - i,
    {
        proof {
            let next = rows@.subrange(0, i + 1);
            assert(next.drop_last() =~= rows@.subrange(0, i as int));
            assert(next.last() == rows@[i as int]);
        }
        if str_eq(rows[i].sandbox_id.as_str(), sandbox_id) {
            insert_probe_by_time(&mut out, rows[i].copy());
        }
        i = i + 1;
    }
    assert(rows@.subrange(0, rows@.len() as int) =~= rows@);
    out
}

impl Store {
    /// Commits durable Sandbox identity and intention for a Run before any
    /// container-runtime side effect: `Requested`, observed `Absent`, at
    /// revision 1. A Run that already owns a current Sandbox is refused.
    pub fn create_sandbox(&mut self, command: &Command, sandbox_key: &str, binding: &SandboxBinding) -> (r: Result<
        Committed<SandboxRecord>,
        StoreError,
    >)
        requires
            old(self).wf(),
        ensures
            final(self).wf(),
            gate_outcome(*old(self), *final(self), *command, r),
            class_of(*old(self), *command) is Fresh ==> match create_sandbox_decision(*old(self), sandbox_key@, *binding) {
                CreateSandboxDecision::AlreadyCurrent => {
                    &&& r matches Err(StoreError::SandboxAlreadyCurrent { run_id, sandbox_id })
                    &&& run_id@ == binding.run_id@
                    &&& exists|i: int| 0 <= i < old(self).sandboxes@.len() && current_for(#[trigger] old(self).sandboxes@[i], binding.run_id@)
                        && old(self).sandboxes@[i].id@ == sandbox_id@
                    &&& *final(self) == *old(self)
                },
                CreateSandboxDecision::Constraint => (r matches Err(StoreError::ConstraintViolated(_)) && *final(self) == *old(self)),
                CreateSandboxDecision::Admitted => {
                    &&& r matches Ok(Committed::Executed { value, cursor })
                    &&& sandbox_created(*old(self), *final(self), sandbox_key@, *binding, value)
                    &&& command_recorded(*old(self), *final(self), *command, cursor)
                    &&& (Store {
                        sandboxes: old(self).sandboxes,
                        events: old(self).events,
                        next_sequence: old(self).next_sequence,
                        commands: old(self).commands,
                        ..*final(self)
                    }) == *old(self)
                },
            },
    {
        match self.command_gate(command) {
            Err(e) => return Err(e),
            Ok(Gate::Replayed { cursor, recorded_at }) => {
                return Ok(Committed::Replayed { cursor, recorded_at });
            },
            Ok(Gate::Fresh) => {},
        }
        match find_current_sandbox(&self.sandboxes, binding.run_id) {
            Some(i) => {
                return Err(
                    StoreError::SandboxAlreadyCurrent {
                        run_id: binding.run_id.to_owned(),
                        sandbox_id: self.sandboxes[i].id.clone(),
                    },
                );
            },
            None => {},
        }
        let id_len: usize = sandbox_key.unicode_len();
        let env_len: usize = binding.environment_identity.unicode_len();
        let taken: bool = find_sandbox(&self.sandboxes, sandbox_key).is_some();
        proof {
            lemma_find_last(self.sandboxes@, sandbox_id_key(), sandbox_key@);
        }
        if id_len < 1 || id_len > 128 || env_len == 0 || taken {
            return Err(StoreError::ConstraintViolated("the Sandbox identity or environment is malformed or taken".to_string()));
        }
        let ghost before = *self;
        let rec = SandboxRecord {
            id: sandbox_key.to_owned(),
            run_id: binding.run_id.to_owned(),
            sandbox_plan_digest: *binding.sandbox_plan_digest,
            environment_identity: binding.environment_identity.to_owned(),
            phase: SandboxPhase::Requested,
            observed_presence: SandboxPresence::Absent,
            revision: Revision { value: 1 },
        };
        let value = rec.copy();
        proof {
            lemma_unique_push(self.sandboxes@, sandbox_id_key(), rec);
        }
        self.sandboxes.push(rec);
        proof {
            let sb = self.sandboxes@;
            assert forall|i: int| 0 <= i < sb.len() implies sandbox_row_wf(#[trigger] sb[i]) by {
                if i < sb.len() - 1 {
                    assert(sb[i] == before.sandboxes@[i]);
                }
            }
            assert forall|i: int, j: int|
                0 <= i < sb.len() && 0 <= j < sb.len() && i != j && !(#[trigger] sb[i]).phase.is_released()
                    && !(#[trigger] sb[j]).phase.is_released() implies sb[i].run_id@ != sb[j].run_id@ by {
                let last = sb.len() - 1;
                if i == last {
                    assert(sb[j] == before.sandboxes@[j]);
                    assert(!current_for(before.sandboxes@[j], binding.run_id@));
                } else if j == last {
                    assert(sb[i] == before.sandboxes@[i]);
                    assert(!current_for(before.sandboxes@[i], binding.run_id@));
                } else {
                    assert(sb[i] == before.sandboxes@[i]);
                    assert(sb[j] == before.sandboxes@[j]);
                }
            }
            assert(self.wf());
        }
        let ghost mid = *self;
        assert(class_of(mid, *command) is Fresh) by {
            assert(mid.commands == before.commands);
        }
        let cursor = self.record_command(command);
        proof {
            assert(self.sandboxes == mid.sandboxes);
        }
        Ok(Committed::Executed { value, cursor })
    }

    /// Updates the observed presence without changing lifecycle phase, under
    /// CAS; a presence the phase's stored constraint forbids is refused.
    pub fn update_sandbox_presence(
        &mut self,
        command: &Command,
        sandbox_key: &str,
        expected: Revision,
        presence: SandboxPresence,
    ) -> (r: Result<Committed<SandboxRecord>, StoreError>)
        requires
            old(self).wf(),
        ensures
            final(self).wf(),
            transition_contract(*old(self), *final(self), *command, sandbox_key@, expected.value, false, None, None,
                presence, r),
    {
        self.sandbox_transition(command, sandbox_key, expected, false, None, None, presence)
    }

    /// The Run's current Sandbox, if it owns one: the one that is not
    /// `Released`, of which there is at most one.
    pub fn sandbox_for_run(&self, run_id: &str) -> (r: Option<SandboxRecord>)
        requires
            self.wf(),
        ensures
            match r {
                Some(rec) => exists|i: int| 0 <= i < self.sandboxes@.len() && #[trigger] self.sandboxes@[i] == rec
                    && current_for(rec, run_id@),
                None => !has_current_sandbox(self.sandboxes@, run_id@),
            },
    {
        match find_current_sandbox(&self.sandboxes, run_id) {
            Some(i) => Some(self.sandboxes[i].copy()),
            None => None,
        }
    }

    /// One Sandbox by its durable id, regardless of phase.
    pub fn sandbox_by_id(&self, sandbox_id: &str) -> (r: Option<SandboxRecord>)
        ensures
            ({
                let si = find_last(self.sandboxes@, sandbox_id_key(), sandbox_id@);
                if si < 0 {
                    r is None
                } else {
                    r == Some(self.sandboxes@[si])
                }
            }),
    {
        match find_sandbox(&self.sandboxes, sandbox_id) {
            Some(i) => Some(self.sandboxes[i].copy()),
            None => None,
        }
    }

    /// Every Sandbox whose phase is not `Released`, in table order.
    pub fn nonreleased_sandbox_inventory(&self) -> (r: Vec<SandboxRecord>)
        ensures
            r@ == self.sandboxes@.filter(|rec: SandboxRecord| !(rec.phase is Released)),
    {
        let ghost pred = |rec: SandboxRecord| !(rec.phase is Released);
        let mut out: Vec<SandboxRecord> = Vec::new();
        let mut i: usize = 0;
        while i < self.sandboxes.len()
            invariant
                i <= self.sandboxes@.len(),
                pred == (|rec: SandboxRecord| !(rec.phase is Released)),
                out@ == self.sandboxes@.subrange(0, i as int).filter(pred),
            decreases self.sandboxes@.len() - i,
        {
            proof {
                reveal(Seq::filter);
                let next = self.sandboxes@.subrange(0, i + 1);
                assert(next.drop_last() =~= self.sandboxes@.subrange(0, i as int));
                assert(next.last() == self.sandboxes@[i as int]);
            }
            if self.sandboxes[i].phase != SandboxPhase::Released {
                out.push(self.sandboxes[i].copy());
            }
            i = i + 1;
        }
        assert(self.sandboxes@.subrange(0, self.sandboxes@.len() as int) =~= self.sandboxes@);
        out
    }

    /// Records one controller-owned probe evidence row durably, with its
    /// time, under the command kernel.
    pub fn record_sandbox_probe_evidence(&mut self, command: &Command, evidence: &SandboxProbeEvidence) -> (r: Result<
        Committed<()>,
        StoreError,
    >)
        requires
            old(self).wf(),
        ensures
            final(self).wf(),
            gate_outcome(*old(self), *final(self), *command, r),
            class_of(*old(self), *command) is Fresh ==> if max_probe_id(old(self).probe_results@) >= i64::MAX {
                r matches Err(StoreError::InvariantViolated(_)) && *final(self) == *old(self)
            } else {
                let p = final(self).probe_results@.last();
                &&& r matches Ok(Committed::Executed { cursor, .. })
                &&& command_recorded(*old(self), *final(self), *command, cursor)
                &&& final(self).probe_results@.drop_last() == old(self).probe_results@
                &&& final(self).probe_results@.len() == old(self).probe_results@.len() + 1
                &&& p.id == max_probe_id(old(self).probe_results@) + 1
                &&& p.sandbox_id@ == evidence.sandbox_id@ && p.probe_name@ == evidence.probe_name@
                &&& p.expected@ == evidence.expected@ && p.observed@ == evidence.observed@
                &&& p.passed == evidence.passed
                &&& p.backend_descriptor@ == evidence.backend_descriptor@
                &&& p.backend_version@ == evidence.backend_version@
                &&& p.platform@ == evidence.platform@ && p.architecture@ == evidence.architecture@
                &&& p.probe_implementation_version@ == evidence.probe_implementation_version@
                &&& (Store {
                    probe_results: old(self).probe_results,
                    events: old(self).events,
                    next_sequence: old(self).next_sequence,
                    commands: old(self).commands,
                    ..*final(self)
                }) == *old(self)
            },
    {
        match self.command_gate(command) {
            Err(e) => return Err(e),
            Ok(Gate::Replayed { cursor, recorded_at }) => {
                return Ok(Committed::Replayed { cursor, recorded_at });
            },
            Ok(Gate::Fresh) => {},
        }
        let base: i64 = next_probe_base(&self.probe_results);
        if base >= i64::MAX {
            return Err(StoreError::InvariantViolated("the probe evidence id space is exhausted".to_string()));
        }
        proof {
            lemma_max_probe_id(self.probe_results@);
        }
        let ghost before = *self;
        let recorded_at: i64 = crate::clock::unix_now();
        let row = SandboxProbeRecord {
            id: base + 1,
            sandbox_id: evidence.sandbox_id.to_owned(),
            probe_name: evidence.probe_name.to_owned(),
            expected: evidence.expected.to_owned(),
            observed: evidence.observed.to_owned(),
            passed: evidence.passed,
            backend_descriptor: evidence.backend_descriptor.to_owned(),
            backend_version: evidence.backend_version.to_owned(),
            platform: evidence.platform.to_owned(),
            architecture: evidence.architecture.to_owned(),
            probe_implementation_version: evidence.probe_implementation_version.to_owned(),
            recorded_at,
        };
        proof {
            assert(!has_key(self.probe_results@, probe_key(), (base + 1) as i64)) by {
                if has_key(self.probe_results@, probe_key(), (base + 1) as i64) {
                    let k = choose|k: int| 0 <= k < self.probe_results@.len() && (probe_key())(#[trigger] self.probe_results@[k]) == base + 1;
                    assert(self.probe_results@[k].id <= base);
                }
            }
            lemma_unique_push(self.probe_results@, probe_key(), row);
        }
        self.probe_results.push(row);
        proof {
            assert(self.probe_results@.drop_last() =~= before.probe_results@);
            assert(self.wf());
        }
        let ghost mid = *self;
        assert(class_of(mid, *command) is Fresh) by {
            assert(mid.commands == before.commands);
        }
        let cursor = self.record_command(command);
        proof {
            assert(self.probe_results == mid.probe_results);
        }
        Ok(Committed::Executed { value: (), cursor })
    }

    /// Every probe evidence row for a Sandbox, oldest first.
    pub fn sandbox_probe_results(&self, sandbox_id: &str) -> (r: Vec<SandboxProbeRecord>)
        ensures
            r@ == probes_by_time(self.probe_results@, sandbox_id@),
    {
        probes_of(&self.probe_results, sandbox_id)
    }
}

} // verus!
