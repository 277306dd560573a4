//! T6: Candidate submission through Agent Control.
//!
//! Only the credential, the Attempt-scoped request id, the proposed output
//! mapping and the observed Task revision come from the worker. Everything
//! authoritative is derived from the authenticated Attempt and re-proven in
//! one transaction: the session fences first, then request idempotency, then
//! current Run, Task and Goal authority, the Task revision, identity honesty,
//! the output mapping against the Task's frozen spec, each output's Artifact
//! kind, completeness and production provenance, and one Candidate per Run.
//! The Candidate, both lifecycle transitions, the request outcome and the
//! Event then commit together.

use vstd::prelude::*;
use vstd::utf8::encode_utf8;

use crate::json::{manifest_references, manifest_references_of};

use crate::agent_control::{
    authenticate_agent_session, authorized, request_key, request_row_set, unauthorized_error,
    AgentCredential, AgentRequestRow, CandidateCommitted, DeclaredOutput, SubmissionOutcome,
};
use crate::artifacts::{artifact_key, member_key, production_key};
use crate::command::event_appended;
use crate::error::StoreError;
use crate::execution::{attempt_key, find_attempt, find_run, find_status, run_key, run_row_wf, status_key, RunPhase};
use crate::planning::{find_goal, find_task, goal_key, spec_key, task_key, task_row_wf, GoalPhase, TaskPhase};
use crate::revision::Revision;
use crate::store::Store;
use crate::table::{
    find_last, has_key, lemma_find_last, lemma_find_last_is, lemma_has_key_update_all, lemma_unique_push, lemma_unique_update,
    unique_by,
};
use crate::cancel::lemma_targets_kept;
use crate::text::{bytes_eq, bytes_hex, digest_hex, str_eq};

verus! {

/// One proposed output: the declared slot and the Artifact filling it.
#[derive(Debug, Clone, PartialEq, Eq)]
pub struct CandidateOutput {
    pub slot: String,
    pub artifact: [u8; 32],
}

/// The pure Candidate a worker proposes: the exact Task and Run it binds,
/// its output mapping, and its content identity and canonical form.
#[derive(Debug, Clone, PartialEq, Eq)]
pub struct CandidateResult {
    pub task_id: String,
    pub run_id: String,
    pub outputs: Vec<CandidateOutput>,
    pub digest: [u8; 32],
    pub canonical_json: String,
}

/// The authoritative input to T6.
#[derive(Debug, Clone, Copy)]
pub struct CandidateSubmission<'a> {
    pub credential: AgentCredential<'a>,
    pub request_id: &'a str,
    /// Digest over the normalized operation and payload; never secret.
    pub request_hash: &'a [u8; 32],
    pub candidate: &'a CandidateResult,
    /// The Task status revision the caller observed.
    pub expected_task_revision: Revision,
}

/// One immutable Candidate, at most one per Run.
#[derive(Debug, Clone, PartialEq, Eq)]
pub struct CandidateRow {
    pub digest: [u8; 32],
    pub task_id: String,
    pub run_id: String,
    pub canonical_json: String,
}

/// One output of a stored Candidate.
#[derive(Debug, Clone, PartialEq, Eq)]
pub struct CandidateOutputRow {
    pub candidate_digest: [u8; 32],
    pub output_slot: String,
    pub artifact_digest: [u8; 32],
    pub production_run_id: String,
}

pub open spec fn candidate_key() -> spec_fn(CandidateRow) -> Seq<u8> {
    |r: CandidateRow| r.digest@
}

pub open spec fn candidate_run_key() -> spec_fn(CandidateRow) -> Seq<char> {
    |r: CandidateRow| r.run_id@
}

pub open spec fn declared_key() -> spec_fn(DeclaredOutput) -> Seq<char> {
    |r: DeclaredOutput| r.name@
}

impl Store {
    /// The submission family's invariants: Candidates keyed by digest and
    /// at most one per Run.
    pub open spec fn submission_wf(&self) -> bool {
        &&& unique_by(self.candidates@, candidate_key())
        &&& unique_by(self.candidates@, candidate_run_key())
    }
}

// ---- Output validation ----------------------------------------------------------

/// Whether some proposed output fills slot `name`.
pub open spec fn proposes(outputs: Seq<CandidateOutput>, name: Seq<char>) -> bool {
    exists|k: int| 0 <= k < outputs.len() && (#[trigger] outputs[k]).slot@ == name
}

/// Whether the output mapping is well formed against the spec: every
/// proposed slot is declared and proposed once, and every required slot is
/// proposed.
pub open spec fn mapping_valid(declared: Seq<DeclaredOutput>, outputs: Seq<CandidateOutput>) -> bool {
    &&& forall|k: int| 0 <= k < outputs.len() ==> has_key(declared, declared_key(), (#[trigger] outputs[k]).slot@)
    &&& forall|k: int, j: int| 0 <= k < j < outputs.len() ==> (#[trigger] outputs[k]).slot@ != (#[trigger] outputs[j]).slot@
    &&& forall|j: int| 0 <= j < declared.len() && (#[trigger] declared[j]).required ==> proposes(outputs, declared[j].name@)
}

/// What is wrong with one output, if anything: `Some(false)` when its
/// Artifact is missing, of a kind the slot does not permit, or incomplete;
/// `Some(true)` when the Run did not produce it for that slot.
pub open spec fn output_fault(
    s: Store,
    declared: Seq<DeclaredOutput>,
    run_id: Seq<char>,
    o: CandidateOutput,
) -> Option<bool> {
    let ai = find_last(s.artifacts@, artifact_key(), o.artifact@);
    let refs = manifest_references(encode_utf8(s.artifacts@[ai].canonical_json@));
    let slot = declared[find_last(declared, declared_key(), o.slot@)];
    let pr = find_last(s.production_records@, production_key(), (run_id, o.slot@));
    if ai < 0 || s.artifacts@[ai].kind@ != slot.kind@ {
        Some(false)
    } else if refs is None {
        Some(false)
    } else if !(forall|p: int|
        0 <= p < refs->0.len() ==> has_key(s.artifact_members@, member_key(), (o.artifact@, #[trigger] refs->0[p]))) {
        Some(false)
    } else if pr < 0 || s.production_records@[pr].artifact_digest@ != o.artifact@ {
        Some(true)
    } else {
        None
    }
}

/// The first fault among the first `n` outputs, in order.
pub open spec fn outputs_fault(
    s: Store,
    declared: Seq<DeclaredOutput>,
    run_id: Seq<char>,
    outputs: Seq<CandidateOutput>,
    n: int,
) -> Option<bool>
    decreases n,
{
    if n <= 0 {
        None
    } else {
        match outputs_fault(s, declared, run_id, outputs, n - 1) {
            Some(f) => Some(f),
            None => output_fault(s, declared, run_id, outputs[n - 1]),
        }
    }
}

// ---- The decision ------------------------------------------------------------------

/// Why a submission refuses, reconciles, or that it may commit.
pub enum SubmissionDecision {
    Unauthorized,
    RequestConflict,
    RequestUnreadable,
    ReconcileMissing,
    ReconcileDiffers,
    Reconciled,
    StaleAuthority,
    TaskMoved(i64),
    CandidateForeign,
    SpecMissing,
    MappingInvalid,
    OutputInvalid,
    ProvenanceInvalid,
    CandidateExists,
    DigestTaken,
    Exhausted,
    Admitted,
}

/// The stored Candidate a recorded success names for this Run.
pub open spec fn reconcile_index(s: Store, result_ref: Seq<char>, run_id: Seq<char>) -> int {
    if exists|c: int| 0 <= c < s.candidates@.len() && bytes_hex((#[trigger] s.candidates@[c]).digest@) == result_ref
        && s.candidates@[c].run_id@ == run_id {
        choose|c: int| 0 <= c < s.candidates@.len() && bytes_hex((#[trigger] s.candidates@[c]).digest@) == result_ref
            && s.candidates@[c].run_id@ == run_id
    } else {
        -1
    }
}

/// The authenticated Attempt still carries submission authority: it is
/// nonterminal, its Run is Active holding the slot with it current, the
/// Run's Task is Active with the Run responsible, and the Task's Goal may
/// still receive results.
pub open spec fn submission_authority(s: Store, attempt_id: Seq<char>) -> bool {
    let ai = find_last(s.attempts@, attempt_key(), attempt_id);
    let a = s.attempts@[ai];
    let si = find_last(s.attempt_status@, status_key(), attempt_id);
    let ri = find_last(s.run_status@, run_key(), a.run_id@);
    let rs = s.run_status@[ri];
    let ti = find_last(s.tasks@, task_key(), rs.task_id@);
    let t = s.tasks@[ti];
    let gi = find_last(s.goals@, goal_key(), t.goal_id@);
    let g = s.goals@[gi];
    &&& ai >= 0
    &&& si >= 0 && !s.attempt_status@[si].terminal
    &&& ri >= 0 && rs.phase is Active && rs.active_slot && (rs.current_attempt_id matches Some(c) && c@ == attempt_id)
    &&& ti >= 0 && t.phase is Active && (t.active_run_id matches Some(r) && r@ == a.run_id@)
    &&& gi >= 0 && (g.phase is Planning || g.phase is Active || g.phase is Evaluating)
}

/// The Run, Task and spec rows an authenticated Attempt derives.
pub open spec fn derived_run(s: Store, attempt_id: Seq<char>) -> int {
    let a = s.attempts@[find_last(s.attempts@, attempt_key(), attempt_id)];
    find_last(s.run_status@, run_key(), a.run_id@)
}

pub open spec fn derived_task(s: Store, attempt_id: Seq<char>) -> int {
    find_last(s.tasks@, task_key(), s.run_status@[derived_run(s, attempt_id)].task_id@)
}

pub open spec fn derived_spec(s: Store, attempt_id: Seq<char>) -> int {
    find_last(s.task_specs@, spec_key(), s.tasks@[derived_task(s, attempt_id)].spec_digest@)
}

/// The decision submitting `sub` reaches on `s`, in the kernel's order.
pub open spec fn submission_decision(s: Store, sub: CandidateSubmission) -> SubmissionDecision {
    let att = sub.credential.attempt_id@;
    let qi = find_last(s.agent_requests@, request_key(), (att, sub.request_id@));
    let q = s.agent_requests@[qi];
    let qs = crate::agent_control::request_state_spec(q.state@, q.result_ref, q.problem_code);
    let cand = *sub.candidate;
    let a = s.attempts@[find_last(s.attempts@, attempt_key(), att)];
    let rs = s.run_status@[derived_run(s, att)];
    let t = s.tasks@[derived_task(s, att)];
    let pi = derived_spec(s, att);
    let declared = s.task_specs@[pi].outputs@;
    if !authorized(s, sub.credential) {
        SubmissionDecision::Unauthorized
    } else if qi >= 0 && qs is None {
        SubmissionDecision::RequestUnreadable
    } else if qi >= 0 && q.request_hash@ != sub.request_hash@ {
        SubmissionDecision::RequestConflict
    } else if qi >= 0 && qs->0 is Succeeded {
        let ci = reconcile_index(s, (qs->0->result_ref)@, cand.run_id@);
        if ci < 0 {
            SubmissionDecision::ReconcileMissing
        } else if s.candidates@[ci].canonical_json@ != cand.canonical_json@ {
            SubmissionDecision::ReconcileDiffers
        } else {
            SubmissionDecision::Reconciled
        }
    } else if !submission_authority(s, att) {
        SubmissionDecision::StaleAuthority
    } else if t.revision != sub.expected_task_revision {
        SubmissionDecision::TaskMoved(t.revision.value)
    } else if cand.run_id@ != a.run_id@ || cand.task_id@ != rs.task_id@ {
        SubmissionDecision::CandidateForeign
    } else if pi < 0 {
        SubmissionDecision::SpecMissing
    } else if !mapping_valid(declared, cand.outputs@) {
        SubmissionDecision::MappingInvalid
    } else if outputs_fault(s, declared, a.run_id@, cand.outputs@, cand.outputs@.len() as int) == Some(false) {
        SubmissionDecision::OutputInvalid
    } else if outputs_fault(s, declared, a.run_id@, cand.outputs@, cand.outputs@.len() as int) == Some(true) {
        SubmissionDecision::ProvenanceInvalid
    } else if has_key(s.candidates@, candidate_run_key(), a.run_id@) {
        SubmissionDecision::CandidateExists
    } else if has_key(s.candidates@, candidate_key(), cand.digest@) {
        SubmissionDecision::DigestTaken
    } else if t.revision.value >= i64::MAX || rs.revision >= i64::MAX || s.next_sequence >= i64::MAX {
        SubmissionDecision::Exhausted
    } else {
        SubmissionDecision::Admitted
    }
}

/// Every check ahead of the per-output checks passes.
pub open spec fn reaches_outputs(s: Store, sub: CandidateSubmission) -> bool {
    let att = sub.credential.attempt_id@;
    let qi = find_last(s.agent_requests@, request_key(), (att, sub.request_id@));
    let q = s.agent_requests@[qi];
    let qs = crate::agent_control::request_state_spec(q.state@, q.result_ref, q.problem_code);
    let cand = *sub.candidate;
    let a = s.attempts@[find_last(s.attempts@, attempt_key(), att)];
    let rs = s.run_status@[derived_run(s, att)];
    let t = s.tasks@[derived_task(s, att)];
    let pi = derived_spec(s, att);
    &&& authorized(s, sub.credential)
    &&& qi >= 0 ==> q.request_hash@ == sub.request_hash@ && qs is Some && !(qs->0 is Succeeded)
    &&& submission_authority(s, att)
    &&& t.revision == sub.expected_task_revision
    &&& cand.run_id@ == a.run_id@ && cand.task_id@ == rs.task_id@
    &&& pi >= 0
    &&& mapping_valid(s.task_specs@[pi].outputs@, cand.outputs@)
}

/// The error each refusal owes.
pub open spec fn submission_refused(s: Store, sub: CandidateSubmission, d: SubmissionDecision, e: StoreError) -> bool {
    let rs = s.run_status@[derived_run(s, sub.credential.attempt_id@)];
    match d {
        SubmissionDecision::Unauthorized => unauthorized_error(s, sub.credential, e),
        SubmissionDecision::RequestConflict => e matches StoreError::AgentRequestConflict { attempt_id, request_id }
            && attempt_id@ == sub.credential.attempt_id@ && request_id@ == sub.request_id@,
        SubmissionDecision::ReconcileDiffers => e matches StoreError::ContentIdentityConflict { table, .. }
            && table@ == "agent_requests"@,
        SubmissionDecision::StaleAuthority => e matches StoreError::SubmissionStaleAuthority { attempt_id, .. }
            && attempt_id@ == sub.credential.attempt_id@,
        SubmissionDecision::TaskMoved(a) => e matches StoreError::RevisionConflict { table, id, expected, actual }
            && table@ == "tasks"@ && id@ == rs.task_id@ && expected == sub.expected_task_revision.value
            && actual == Some(a),
        SubmissionDecision::CandidateForeign | SubmissionDecision::MappingInvalid
        | SubmissionDecision::OutputInvalid => e is CandidateInvalid,
        SubmissionDecision::ProvenanceInvalid => e is CandidateProvenanceInvalid,
        SubmissionDecision::CandidateExists => e matches StoreError::CandidateExists { run_id, candidate_digest }
            && run_id == rs.run_id && candidate_digest@ == bytes_hex(sub.candidate.digest@),
        SubmissionDecision::DigestTaken => e is ConstraintViolated,
        SubmissionDecision::Reconciled | SubmissionDecision::Admitted => false,
        _ => e is InvariantViolated,
    }
}

/// What a reconciled replay reports: the recorded Candidate, with the rows'
/// current revisions, since the original request already moved them.
pub open spec fn reconciled_outcome(s: Store, sub: CandidateSubmission, o: SubmissionOutcome) -> bool {
    let att = sub.credential.attempt_id@;
    let q = s.agent_requests@[find_last(s.agent_requests@, request_key(), (att, sub.request_id@))];
    let ti = find_last(s.tasks@, task_key(), sub.candidate.task_id@);
    let ri = find_last(s.run_status@, run_key(), sub.candidate.run_id@);
    &&& o.reconciled
    &&& q.result_ref matches Some(r) && o.committed.candidate_digest@ == r@
    &&& o.committed.task_revision.value == if ti >= 0 { s.tasks@[ti].revision.value } else { 0 }
    &&& o.committed.run_revision.value == if ri >= 0 { s.run_status@[ri].revision } else { 0 }
}

/// An admitted submission's effect.
pub open spec fn submitted(before: Store, after: Store, sub: CandidateSubmission, o: SubmissionOutcome) -> bool {
    let att = sub.credential.attempt_id@;
    let ri = derived_run(before, att);
    let ti = derived_task(before, att);
    let rs = before.run_status@[ri];
    let t = before.tasks@[ti];
    let nrs = after.run_status@[ri];
    let nt = after.tasks@[ti];
    let qi = find_last(before.agent_requests@, request_key(), (att, sub.request_id@));
    let cand = *sub.candidate;
    let c = after.candidates@.last();
    let hex = bytes_hex(cand.digest@);
    &&& !o.reconciled
    &&& o.committed.candidate_digest@ == hex
    &&& o.committed.task_revision.value == t.revision.value + 1
    &&& o.committed.run_revision.value == rs.revision + 1
    &&& after.candidates@.len() == before.candidates@.len() + 1 && after.candidates@.drop_last() == before.candidates@
    &&& c.digest == cand.digest && c.task_id@ == rs.task_id@ && c.run_id == rs.run_id && c.canonical_json@ == cand.canonical_json@
    &&& after.candidate_outputs@.len() == before.candidate_outputs@.len() + cand.outputs@.len()
    &&& after.candidate_outputs@.take(before.candidate_outputs@.len() as int) == before.candidate_outputs@
    &&& forall|k: int| 0 <= k < cand.outputs@.len() ==> {
        let row = #[trigger] after.candidate_outputs@[before.candidate_outputs@.len() + k];
        &&& row.candidate_digest == cand.digest && row.output_slot@ == cand.outputs@[k].slot@
        &&& row.artifact_digest == cand.outputs@[k].artifact && row.production_run_id == rs.run_id
    }
    &&& after.run_status@.len() == before.run_status@.len()
    &&& forall|j: int| 0 <= j < before.run_status@.len() && j != ri ==> after.run_status@[j] == before.run_status@[j]
    &&& nrs.run_id == rs.run_id && nrs.task_id == rs.task_id && nrs.active_slot == rs.active_slot
    &&& nrs.current_attempt_id == rs.current_attempt_id && nrs.phase is Finalizing
    &&& nrs.terminal_target == Some(RunPhase::Completed) && nrs.revision == rs.revision + 1
    &&& after.tasks@.len() == before.tasks@.len()
    &&& forall|j: int| 0 <= j < before.tasks@.len() && j != ti ==> after.tasks@[j] == before.tasks@[j]
    &&& nt == (crate::planning::TaskRecord { phase: TaskPhase::Evaluating, revision: Revision { value: (t.revision.value + 1) as i64 }, ..t })
    &&& if qi >= 0 {
        request_row_set(before, after, qi, "SUCCEEDED"@, Some(hex), None)
    } else {
        let q = after.agent_requests@.last();
        &&& after.agent_requests@.len() == before.agent_requests@.len() + 1
        &&& after.agent_requests@.drop_last() == before.agent_requests@
        &&& q.attempt_id@ == att && q.request_id@ == sub.request_id@ && q.request_hash@ == sub.request_hash@
        &&& q.operation@ == "task.submit_result"@ && q.state@ == "SUCCEEDED"@
        &&& (q.result_ref matches Some(r) && r@ == hex) && q.problem_code is None
    }
}

// ---- Lookups and validation ------------------------------------------------------

fn find_declared(rows: &Vec<DeclaredOutput>, name: &str) -> (r: Option<usize>)
    ensures
        match r {
            Some(i) => i < rows@.len() && i == find_last(rows@, declared_key(), name@),
            None => find_last(rows@, declared_key(), name@) == -1,
        },
{
    let mut i: usize = rows.len();
    while i > 0
        invariant
            i <= rows@.len(),
            forall|j: int| i <= j < rows@.len() ==> (declared_key())(#[trigger] rows@[j]) != name@,
        decreases i,
    {
        i = i - 1;
        if str_eq(rows[i].name.as_str(), name) {
            proof {
                lemma_find_last_is(rows@, declared_key(), name@, i as int);
            }
            return Some(i);
        }
    }
    proof {
        lemma_find_last(rows@, declared_key(), name@);
    }
    None
}

fn proposes_slot(outputs: &Vec<CandidateOutput>, name: &str) -> (r: bool)
    ensures
        r == proposes(outputs@, name@),
{
    let mut i: usize = 0;
    while i < outputs.len()
        invariant
            i <= outputs@.len(),
            forall|k: int| 0 <= k < i ==> (#[trigger] outputs@[k]).slot@ != name@,
        decreases outputs@.len() - i,
    {
        if str_eq(outputs[i].slot.as_str(), name) {
            return true;
        }
        i = i + 1;
    }
    false
}

/// Whether the output mapping is well formed against the declared slots.
fn check_mapping(declared: &Vec<DeclaredOutput>, outputs: &Vec<CandidateOutput>) -> (r: bool)
    ensures
        r == mapping_valid(declared@, outputs@),
{
    let mut k: usize = 0;
    while k < outputs.len()
        invariant
            k <= outputs@.len(),
            forall|x: int| 0 <= x < k ==> has_key(declared@, declared_key(), (#[trigger] outputs@[x]).slot@),
            forall|x: int, y: int| 0 <= x < y < k ==> (#[trigger] outputs@[x]).slot@ != (#[trigger] outputs@[y]).slot@,
        decreases outputs@.len() - k,
    {
        let found = find_declared(declared, outputs[k].slot.as_str());
        proof {
            lemma_find_last(declared@, declared_key(), outputs@[k as int].slot@);
        }
        if found.is_none() {
            return false;
        }
        let mut x: usize = 0;
        while x < k
            invariant
                k < outputs@.len(),
                x <= k,
                forall|y: int| 0 <= y < x ==> (#[trigger] outputs@[y]).slot@ != outputs@[k as int].slot@,
            decreases k - x,
        {
            if str_eq(outputs[x].slot.as_str(), outputs[k].slot.as_str()) {
                return false;
            }
            x = x + 1;
        }
        k = k + 1;
    }
    let mut j: usize = 0;
    while j < declared.len()
        invariant
            j <= declared@.len(),
            forall|y: int| 0 <= y < j && (#[trigger] declared@[y]).required ==> proposes(outputs@, declared@[y].name@),
        decreases declared@.len() - j,
    {
        if declared[j].required && !proposes_slot(outputs, declared[j].name.as_str()) {
            return false;
        }
        j = j + 1;
    }
    true
}

fn find_candidate_for_run(rows: &Vec<CandidateRow>, run_id: &str) -> (r: bool)
    ensures
        r == has_key(rows@, candidate_run_key(), run_id@),
{
    let mut i: usize = 0;
    while i < rows.len()
        invariant
            i <= rows@.len(),
            forall|j: int| 0 <= j < i ==> (candidate_run_key())(#[trigger] rows@[j]) != run_id@,
        decreases rows@.len() - i,
    {
        if str_eq(rows[i].run_id.as_str(), run_id) {
            assert((candidate_run_key())(rows@[i as int]) == run_id@);
            return true;
        }
        i = i + 1;
    }
    false
}

fn has_candidate_digest(rows: &Vec<CandidateRow>, d: &[u8; 32]) -> (r: bool)
    ensures
        r == has_key(rows@, candidate_key(), d@),
{
    let mut i: usize = 0;
    while i < rows.len()
        invariant
            i <= rows@.len(),
            forall|j: int| 0 <= j < i ==> (candidate_key())(#[trigger] rows@[j]) != d@,
        decreases rows@.len() - i,
    {
        if bytes_eq(rows[i].digest.as_slice(), d.as_slice()) {
            assert((candidate_key())(rows@[i as int]) == d@);
            return true;
        }
        i = i + 1;
    }
    false
}

/// The stored Candidate of `run_id` whose digest spells `result_ref`.
fn find_recorded_candidate(rows: &Vec<CandidateRow>, result_ref: &str, run_id: &str) -> (r: Option<usize>)
    requires
        unique_by(rows@, candidate_run_key()),
    ensures
        match r {
            Some(c) => c < rows@.len() && bytes_hex(rows@[c as int].digest@) == result_ref@ && rows@[c as int].run_id@
                == run_id@,
            None => forall|c: int|
                0 <= c < rows@.len() ==> !(bytes_hex((#[trigger] rows@[c]).digest@) == result_ref@ && rows@[c].run_id@
                    == run_id@),
        },
{
    let mut i: usize = 0;
    while i < rows.len()
        invariant
            i <= rows@.len(),
            forall|c: int|
                0 <= c < i ==> !(bytes_hex((#[trigger] rows@[c]).digest@) == result_ref@ && rows@[c].run_id@ == run_id@),
        decreases rows@.len() - i,
    {
        if str_eq(rows[i].run_id.as_str(), run_id) {
            let hex = digest_hex(&rows[i].digest);
            if str_eq(hex.as_str(), result_ref) {
                return Some(i);
            }
        }
        i = i + 1;
    }
    None
}

/// Where an admitted submission writes.
pub(crate) struct SubmissionTargets {
    pub run: usize,
    pub task: usize,
    pub request: Option<usize>,
}

/// What the checks decided: a reconciled replay, or the rows to write.
pub(crate) enum SubmissionPlan {
    Reconciled(SubmissionOutcome),
    Apply(SubmissionTargets),
}

impl Store {
    /// What is wrong with one proposed output, if anything.
    #[verifier::loop_isolation(false)]
    fn output_fault_of(
        &self,
        declared: &Vec<DeclaredOutput>,
        run_id: &str,
        o: &CandidateOutput,
    ) -> (r: Option<bool>)
        requires
            has_key(declared@, declared_key(), o.slot@),
        ensures
            r == output_fault(*self, declared@, run_id@, *o),
    {
        let ai: usize = match crate::artifacts::find_artifact(&self.artifacts, &o.artifact) {
            None => return Some(false),
            Some(a) => a,
        };
        let di: usize = match find_declared(declared, o.slot.as_str()) {
            None => {
                proof {
                    lemma_find_last(declared@, declared_key(), o.slot@);
                }
                return Some(false);
            },
            Some(d) => d,
        };
        if !str_eq(self.artifacts[ai].kind.as_str(), declared[di].kind.as_str()) {
            return Some(false);
        }
        // The stored manifest is read back, and every payload it references
        // must be a recorded member of the Artifact.
        let json: &str = self.artifacts[ai].canonical_json.as_str();
        let bytes: &[u8] = json.as_bytes();
        assert(bytes@ == encode_utf8(self.artifacts@[ai as int].canonical_json@));
        let refs: Vec<Vec<u8>> = match manifest_references_of(bytes) {
            None => return Some(false),
            Some(v) => v,
        };
        let ghost m = manifest_references(encode_utf8(self.artifacts@[ai as int].canonical_json@))->Some_0;
        let mut p: usize = 0;
        while p < refs.len()
            invariant
                p <= refs@.len(),
                m.len() == refs@.len(),
                forall|x: int| 0 <= x < m.len() ==> #[trigger] m[x] == refs@[x]@,
                forall|x: int| 0 <= x < p ==> has_key(self.artifact_members@, member_key(), (o.artifact@, #[trigger] m[x])),
            decreases refs@.len() - p,
        {
            if !crate::artifacts::has_member_bytes(&self.artifact_members, &o.artifact, refs[p].as_slice()) {
                assert(m[p as int] == refs@[p as int]@);
                return Some(false);
            }
            assert(m[p as int] == refs@[p as int]@);
            p = p + 1;
        }
        match crate::artifacts::find_production(&self.production_records, run_id, o.slot.as_str()) {
            None => Some(true),
            Some(x) => {
                if bytes_eq(self.production_records[x].artifact_digest.as_slice(), o.artifact.as_slice()) {
                    None
                } else {
                    Some(true)
                }
            },
        }
    }

    /// Runs every T6 check in order, refusing with the error the first
    /// failing one owes, reconciling a recorded success, or naming the rows
    /// an admitted submission writes.
    fn check_submission(&self, sub: &CandidateSubmission) -> (r: Result<SubmissionPlan, StoreError>)
        requires
            self.wf(),
        ensures
            match r {
                Ok(SubmissionPlan::Reconciled(o)) => submission_decision(*self, *sub) is Reconciled && reconciled_outcome(
                    *self,
                    *sub,
                    o,
                ),
                Ok(SubmissionPlan::Apply(t)) => {
                    &&& submission_decision(*self, *sub) is Admitted
                    &&& t.run as int == derived_run(*self, sub.credential.attempt_id@)
                    &&& t.task as int == derived_task(*self, sub.credential.attempt_id@)
                    &&& match t.request {
                        Some(q) => q as int == find_last(self.agent_requests@, request_key(), (sub.credential.attempt_id@, sub.request_id@))
                            && q < self.agent_requests@.len(),
                        None => find_last(self.agent_requests@, request_key(), (sub.credential.attempt_id@, sub.request_id@)) == -1,
                    }
                },
                Err(e) => !(submission_decision(*self, *sub) is Reconciled) && !(submission_decision(*self, *sub) is Admitted)
                    && submission_refused(*self, *sub, submission_decision(*self, *sub), e),
            },
    {
        let attempt_id = sub.credential.attempt_id;
        let cand = sub.candidate;
        proof {
            reveal_strlit("STARTED");
            reveal_strlit("SUCCEEDED");
            reveal_strlit("FAILED");
            assert("STARTED"@.len() == 7 && "SUCCEEDED"@.len() == 9 && "FAILED"@.len() == 6);
        }
        // The session fences, ahead of everything else.
        match authenticate_agent_session(self, &sub.credential) {
            Err(e) => return Err(e),
            Ok(()) => {},
        }
        // Request idempotency, after the fence.
        let qi = crate::agent_control::find_request(&self.agent_requests, attempt_id, sub.request_id);
        match qi {
            Some(q) => {
                let row = &self.agent_requests[q];
                let is_started: bool = str_eq(row.state.as_str(), "STARTED");
                let is_succeeded: bool = str_eq(row.state.as_str(), "SUCCEEDED");
                let is_failed: bool = str_eq(row.state.as_str(), "FAILED");
                // The stored row is read back before its identity is judged.
                if is_succeeded && row.result_ref.is_none() {
                    return Err(StoreError::InvariantViolated("a SUCCEEDED agent request stores no result ref".to_string()));
                }
                if is_failed && row.problem_code.is_none() {
                    return Err(StoreError::InvariantViolated("a FAILED agent request stores no problem code".to_string()));
                }
                if !is_started && !is_succeeded && !is_failed {
                    return Err(StoreError::InvariantViolated("agent_requests stores an unknown state".to_string()));
                }
                if !bytes_eq(row.request_hash.as_slice(), sub.request_hash.as_slice()) {
                    return Err(
                        StoreError::AgentRequestConflict {
                            attempt_id: attempt_id.to_owned(),
                            request_id: sub.request_id.to_owned(),
                        },
                    );
                }
                if is_succeeded {
                    match &row.result_ref {
                        None => {
                            return Err(StoreError::InvariantViolated("a SUCCEEDED agent request stores no result ref".to_string()));
                        },
                        Some(result_ref) => {
                            match find_recorded_candidate(&self.candidates, result_ref.as_str(), cand.run_id.as_str()) {
                                None => {
                                    return Err(
                                        StoreError::InvariantViolated(
                                            "an agent request references a candidate that is not stored".to_string(),
                                        ),
                                    );
                                },
                                Some(c) => {
                                    proof {
                                        let w = reconcile_index(*self, result_ref@, cand.run_id@);
                                        assert((candidate_run_key())(self.candidates@[w]) == (candidate_run_key())(self.candidates@[c as int]));
                                    }
                                    if !str_eq(self.candidates[c].canonical_json.as_str(), cand.canonical_json.as_str()) {
                                        return Err(
                                            StoreError::ContentIdentityConflict {
                                                table: "agent_requests",
                                                id: result_ref.clone(),
                                                detail: "a recorded outcome names a candidate whose content disagrees".to_string(),
                                            },
                                        );
                                    }
                                    let task_revision: i64 = match find_task(&self.tasks, cand.task_id.as_str()) {
                                        Some(t) => self.tasks[t].revision.value,
                                        None => 0,
                                    };
                                    let run_revision: i64 = match find_run(&self.run_status, cand.run_id.as_str()) {
                                        Some(x) => self.run_status[x].revision,
                                        None => 0,
                                    };
                                    return Ok(
                                        SubmissionPlan::Reconciled(
                                            SubmissionOutcome {
                                                committed: CandidateCommitted {
                                                    candidate_digest: result_ref.clone(),
                                                    task_revision: Revision { value: task_revision },
                                                    run_revision: Revision { value: run_revision },
                                                },
                                                reconciled: true,
                                            },
                                        ),
                                    );
                                },
                            }
                        },
                    }
                }
            },
            None => {},
        }
        // Current authority, derived from the authenticated Attempt.
        let stale = StoreError::SubmissionStaleAuthority {
            attempt_id: attempt_id.to_owned(),
            detail: "the Attempt no longer carries Run and Task authority".to_string(),
        };
        let ai: usize = match find_attempt(&self.attempts, attempt_id) {
            None => return Err(stale),
            Some(i) => i,
        };
        let si: usize = match find_status(&self.attempt_status, attempt_id) {
            None => return Err(stale),
            Some(i) => i,
        };
        if self.attempt_status[si].terminal {
            return Err(stale);
        }
        let a = &self.attempts[ai];
        let ri: usize = match find_run(&self.run_status, a.run_id.as_str()) {
            None => return Err(stale),
            Some(i) => i,
        };
        let rs = &self.run_status[ri];
        let run_current: bool = rs.phase == RunPhase::Active && rs.active_slot && match &rs.current_attempt_id {
            Some(c) => str_eq(c.as_str(), attempt_id),
            None => false,
        };
        if !run_current {
            return Err(stale);
        }
        let ti: usize = match find_task(&self.tasks, rs.task_id.as_str()) {
            None => return Err(stale),
            Some(i) => i,
        };
        let t = &self.tasks[ti];
        let task_current: bool = t.phase == TaskPhase::Active && match &t.active_run_id {
            Some(r) => str_eq(r.as_str(), a.run_id.as_str()),
            None => false,
        };
        if !task_current {
            return Err(stale);
        }
        let goal_open: bool = match find_goal(&self.goals, t.goal_id.as_str()) {
            None => false,
            Some(g) => {
                let phase = self.goals[g].phase;
                phase == GoalPhase::Planning || phase == GoalPhase::Active || phase == GoalPhase::Evaluating
            },
        };
        if !goal_open {
            return Err(stale);
        }
        if t.revision.value != sub.expected_task_revision.value {
            return Err(
                StoreError::RevisionConflict {
                    table: "tasks",
                    id: rs.task_id.clone(),
                    expected: sub.expected_task_revision.value,
                    actual: Some(t.revision.value),
                },
            );
        }
        // Identity honesty: the Candidate binds exactly the derived lineage.
        if !str_eq(cand.run_id.as_str(), a.run_id.as_str()) || !str_eq(cand.task_id.as_str(), rs.task_id.as_str()) {
            return Err(
                StoreError::CandidateInvalid {
                    detail: "the candidate binds another Task or Run than the authenticated lineage derives".to_string(),
                },
            );
        }
        // The output mapping against the Task's frozen spec.
        let pi: usize = match crate::planning::find_spec_row(&self.task_specs, &t.spec_digest) {
            None => {
                return Err(StoreError::InvariantViolated("the task's stored specification is not present".to_string()));
            },
            Some(i) => i,
        };
        let declared = &self.task_specs[pi].outputs;
        if !check_mapping(declared, &cand.outputs) {
            return Err(
                StoreError::CandidateInvalid { detail: "the output mapping does not satisfy the Task's spec".to_string() },
            );
        }
        // Each output: Artifact kind and completeness, then provenance.
        let mut k: usize = 0;
        assert(reaches_outputs(*self, *sub));
        while k < cand.outputs.len()
            invariant
                self.wf(),
                reaches_outputs(*self, *sub),
                declared@ == self.task_specs@[derived_spec(*self, attempt_id@)].outputs@,
                a.run_id@ == self.attempts@[find_last(self.attempts@, attempt_key(), attempt_id@)].run_id@,
                attempt_id@ == sub.credential.attempt_id@,
                cand == sub.candidate,
                k <= cand.outputs@.len(),
                mapping_valid(declared@, cand.outputs@),
                outputs_fault(*self, declared@, a.run_id@, cand.outputs@, k as int) is None,
            decreases cand.outputs@.len() - k,
        {
            proof {
                assert(has_key(declared@, declared_key(), cand.outputs@[k as int].slot@));
            }
            match self.output_fault_of(declared, a.run_id.as_str(), &cand.outputs[k]) {
                Some(provenance) => {
                    proof {
                        assert(outputs_fault(*self, declared@, a.run_id@, cand.outputs@, k as int + 1)
                            == Some(provenance));
                        lemma_outputs_fault_stays(
                            *self,
                            declared@,
                            a.run_id@,
                            cand.outputs@,
                            k as int + 1,
                            cand.outputs@.len() as int,
                        );
                    }
                    if provenance {
                        return Err(
                            StoreError::CandidateProvenanceInvalid {
                                detail: "the Run has no matching production record for an output".to_string(),
                            },
                        );
                    } else {
                        return Err(
                            StoreError::CandidateInvalid {
                                detail: "an output's Artifact is missing, of the wrong kind, or incomplete".to_string(),
                            },
                        );
                    }
                },
                None => {},
            }
            k = k + 1;
        }
        // One Candidate per Run, and one row per content identity.
        if find_candidate_for_run(&self.candidates, a.run_id.as_str()) {
            return Err(
                StoreError::CandidateExists { run_id: rs.run_id.clone(), candidate_digest: digest_hex(&cand.digest) },
            );
        }
        if has_candidate_digest(&self.candidates, &cand.digest) {
            return Err(StoreError::ConstraintViolated("a candidate with this digest already exists".to_string()));
        }
        if t.revision.value >= i64::MAX || rs.revision >= i64::MAX || self.next_sequence >= i64::MAX {
            return Err(StoreError::InvariantViolated("a revision the submission advances is exhausted".to_string()));
        }
        proof {
            lemma_find_last(self.agent_requests@, request_key(), (attempt_id@, sub.request_id@));
        }
        Ok(SubmissionPlan::Apply(SubmissionTargets { run: ri, task: ti, request: qi }))
    }
}

/// A fault among the first `i` outputs is the fault among all `n`.
proof fn lemma_outputs_fault_stays(
    s: Store,
    declared: Seq<DeclaredOutput>,
    run_id: Seq<char>,
    outputs: Seq<CandidateOutput>,
    i: int,
    n: int,
)
    requires
        0 <= i <= n,
        outputs_fault(s, declared, run_id, outputs, i) is Some,
    ensures
        outputs_fault(s, declared, run_id, outputs, n) == outputs_fault(s, declared, run_id, outputs, i),
    decreases n - i,
{
    if i < n {
        lemma_outputs_fault_stays(s, declared, run_id, outputs, i, n - 1);
    }
}

impl Store {
    /// Writes an admitted submission: the Candidate and its outputs, the Run
    /// to Finalizing towards Completed (keeping its slot), the Task to
    /// Evaluating, the request's success, and the Event.
    fn apply_submission(&mut self, sub: &CandidateSubmission, t: &SubmissionTargets) -> (o: SubmissionOutcome)
        requires
            old(self).wf(),
            submission_decision(*old(self), *sub) is Admitted,
            t.run as int == derived_run(*old(self), sub.credential.attempt_id@),
            t.task as int == derived_task(*old(self), sub.credential.attempt_id@),
            match t.request {
                Some(q) => q as int == find_last(old(self).agent_requests@, request_key(), (sub.credential.attempt_id@, sub.request_id@))
                    && q < old(self).agent_requests@.len(),
                None => find_last(old(self).agent_requests@, request_key(), (sub.credential.attempt_id@, sub.request_id@)) == -1,
            },
        ensures
            final(self).wf(),
            submitted(*old(self), *final(self), *sub, o),
            event_appended(*old(self), *final(self), "candidate.submitted"@, None),
            (Store {
                candidates: old(self).candidates,
                candidate_outputs: old(self).candidate_outputs,
                run_status: old(self).run_status,
                tasks: old(self).tasks,
                agent_requests: old(self).agent_requests,
                events: old(self).events,
                next_sequence: old(self).next_sequence,
                ..*final(self)
            }) == *old(self),
    {
        let ghost before = *self;
        let cand = sub.candidate;
        let ri = t.run;
        let ti = t.task;
        proof {
            let att = sub.credential.attempt_id@;
            let a = self.attempts@[find_last(self.attempts@, attempt_key(), att)];
            lemma_find_last(self.run_status@, run_key(), a.run_id@);
            lemma_find_last(self.tasks@, task_key(), self.run_status@[ri as int].task_id@);
            lemma_find_last(self.agent_requests@, request_key(), (sub.credential.attempt_id@, sub.request_id@));
        }
        let run_id: String = self.run_status[ri].run_id.clone();
        let hex: String = digest_hex(&cand.digest);
        // The immutable Candidate and its outputs.
        let row = CandidateRow {
            digest: cand.digest,
            task_id: self.run_status[ri].task_id.clone(),
            run_id: run_id.clone(),
            canonical_json: cand.canonical_json.clone(),
        };
        proof {
            lemma_unique_push(self.candidates@, candidate_key(), row);
            lemma_unique_push(self.candidates@, candidate_run_key(), row);
        }
        self.candidates.push(row);
        let mut k: usize = 0;
        let ghost pre = *self;
        while k < cand.outputs.len()
            invariant
                k <= cand.outputs@.len(),
                cand == sub.candidate,
                run_id == before.run_status@[ri as int].run_id,
                self.candidate_outputs@.len() == before.candidate_outputs@.len() + k,
                self.candidate_outputs@.take(before.candidate_outputs@.len() as int) == before.candidate_outputs@,
                forall|x: int| 0 <= x < k ==> {
                    let r = #[trigger] self.candidate_outputs@[before.candidate_outputs@.len() + x];
                    &&& r.candidate_digest == cand.digest && r.output_slot@ == cand.outputs@[x].slot@
                    &&& r.artifact_digest == cand.outputs@[x].artifact && r.production_run_id == run_id
                },
                (Store { candidate_outputs: pre.candidate_outputs, ..*self }) == pre,
                pre.candidate_outputs == before.candidate_outputs,
            decreases cand.outputs@.len() - k,
        {
            let out = CandidateOutputRow {
                candidate_digest: cand.digest,
                output_slot: cand.outputs[k].slot.clone(),
                artifact_digest: cand.outputs[k].artifact,
                production_run_id: run_id.clone(),
            };
            self.candidate_outputs.push(out);
            proof {
                assert(self.candidate_outputs@.take(before.candidate_outputs@.len() as int) =~= before.candidate_outputs@);
                assert forall|x: int| 0 <= x < k + 1 implies {
                    let r = #[trigger] self.candidate_outputs@[before.candidate_outputs@.len() + x];
                    &&& r.candidate_digest == cand.digest && r.output_slot@ == cand.outputs@[x].slot@
                    &&& r.artifact_digest == cand.outputs@[x].artifact && r.production_run_id == run_id
                } by {
                    if x < k {
                        assert(self.candidate_outputs@[before.candidate_outputs@.len() + x]
                            == self.candidate_outputs@.drop_last()[before.candidate_outputs@.len() + x]);
                    }
                }
            }
            k = k + 1;
        }
        // Lifecycle: the Run to Finalizing towards Completed, keeping its
        // slot; the Task to Evaluating.
        let rs = &self.run_status[ri];
        let run_revision: i64 = rs.revision + 1;
        let finalizing = crate::execution::RunStatusRow {
            run_id: rs.run_id.clone(),
            task_id: rs.task_id.clone(),
            phase: RunPhase::Finalizing,
            terminal_target: Some(RunPhase::Completed),
            revision: run_revision,
            active_slot: rs.active_slot,
            current_attempt_id: match &rs.current_attempt_id {
                Some(c) => Some(c.clone()),
                None => None,
            },
        };
        proof {
            lemma_unique_update(self.run_status@, run_key(), ri as int, finalizing);
        }
        self.run_status.set(ri, finalizing);
        let task = self.tasks[ti].copy();
        let task_revision: i64 = task.revision.value + 1;
        let evaluating = crate::planning::TaskRecord {
            id: task.id,
            goal_id: task.goal_id,
            phase: TaskPhase::Evaluating,
            created_graph_revision: task.created_graph_revision,
            spec_digest: task.spec_digest,
            revision: Revision { value: task_revision },
            active_run_id: task.active_run_id,
        };
        proof {
            lemma_unique_update(self.tasks@, task_key(), ti as int, evaluating);
            lemma_has_key_update_all(self.tasks@, task_key(), ti as int, evaluating);
        }
        self.tasks.set(ti, evaluating);
        // The request outcome, committed with everything above.
        match t.request {
            Some(q) => {
                let o = &self.agent_requests[q];
                let updated = AgentRequestRow {
                    attempt_id: o.attempt_id.clone(),
                    request_id: o.request_id.clone(),
                    request_hash: o.request_hash.clone(),
                    operation: o.operation.clone(),
                    state: "SUCCEEDED".to_string(),
                    result_ref: Some(hex.clone()),
                    problem_code: None,
                };
                proof {
                    lemma_unique_update(self.agent_requests@, request_key(), q as int, updated);
                }
                self.agent_requests.set(q, updated);
            },
            None => {
                let created = AgentRequestRow {
                    attempt_id: sub.credential.attempt_id.to_owned(),
                    request_id: sub.request_id.to_owned(),
                    request_hash: vstd::slice::slice_to_vec(sub.request_hash.as_slice()),
                    operation: "task.submit_result".to_string(),
                    state: "SUCCEEDED".to_string(),
                    result_ref: Some(hex.clone()),
                    problem_code: None,
                };
                proof {
                    lemma_unique_push(self.agent_requests@, request_key(), created);
                }
                self.agent_requests.push(created);
            },
        }
        proof {
            reveal_strlit("SUCCEEDED");
            reveal_strlit("task.submit_result");
            assert(self.candidates@.drop_last() =~= before.candidates@);
            if t.request is None {
                assert(self.agent_requests@.drop_last() =~= before.agent_requests@);
            }
            assert forall|i: int| 0 <= i < self.run_status@.len() implies crate::execution::run_row_wf(
                #[trigger] self.run_status@[i],
            ) by {
                if i != ri {
                    assert(self.run_status@[i] == before.run_status@[i]);
                }
            }
            assert forall|i: int, j: int|
                0 <= i < self.run_status@.len() && 0 <= j < self.run_status@.len() && i != j
                    && #[trigger] self.run_status@[i].active_slot implies !#[trigger] self.run_status@[j].active_slot by {
                assert(self.run_status@[i].active_slot == before.run_status@[i].active_slot);
                assert(self.run_status@[j].active_slot == before.run_status@[j].active_slot);
            }
            assert forall|i: int| 0 <= i < self.tasks@.len() implies task_row_wf(#[trigger] self.tasks@[i]) by {
                if i != ti {
                    assert(self.tasks@[i] == before.tasks@[i]);
                }
            }
            lemma_targets_kept(before, *self);
        }
        self.append_internal_event("candidate.submitted");
        SubmissionOutcome {
            committed: CandidateCommitted {
                candidate_digest: hex,
                task_revision: Revision { value: task_revision },
                run_revision: Revision { value: run_revision },
            },
            reconciled: false,
        }
    }

    /// Commits T6 Candidate submission for an authenticated Attempt.
    ///
    /// The session fences come first, then request idempotency: the same
    /// request id with the same hash reconciles a recorded success to the
    /// same Candidate, with another hash it conflicts. Current Run, Task and
    /// Goal authority is derived from the Attempt, the Task revision is
    /// CAS-checked, the Candidate must bind exactly the derived lineage, its
    /// output mapping must satisfy the Task's frozen spec, and each output's
    /// Artifact must be of the slot's kind, complete, and produced by this
    /// Run for that slot. Then the Candidate, the lifecycle transitions, the
    /// request's success and the Event commit together; nothing is written
    /// on any refusal.
    pub fn submit_candidate(&mut self, submission: &CandidateSubmission) -> (r: Result<SubmissionOutcome, StoreError>)
        requires
            old(self).wf(),
        ensures
            final(self).wf(),
            match submission_decision(*old(self), *submission) {
                SubmissionDecision::Reconciled => (r matches Ok(o) && reconciled_outcome(*old(self), *submission, o))
                    && *final(self) == *old(self),
                SubmissionDecision::Admitted => {
                    &&& r matches Ok(o)
                    &&& submitted(*old(self), *final(self), *submission, o)
                    &&& event_appended(*old(self), *final(self), "candidate.submitted"@, None)
                    &&& (Store {
                        candidates: old(self).candidates,
                        candidate_outputs: old(self).candidate_outputs,
                        run_status: old(self).run_status,
                        tasks: old(self).tasks,
                        agent_requests: old(self).agent_requests,
                        events: old(self).events,
                        next_sequence: old(self).next_sequence,
                        ..*final(self)
                    }) == *old(self)
                },
                d => (r matches Err(e) && submission_refused(*old(self), *submission, d, e)) && *final(self) == *old(self),
            },
    {
        match self.check_submission(submission) {
            Err(e) => Err(e),
            Ok(SubmissionPlan::Reconciled(o)) => Ok(o),
            Ok(SubmissionPlan::Apply(t)) => Ok(self.apply_submission(submission, &t)),
        }
    }
}

} // verus!
