//! Attempt-bound Agent Control: the session authentication fence and the
//! durable `(attempt, request)` idempotency ledger.
//!
//! Authentication is not authorization: a presented verifier proves only
//! which Attempt is calling. The RestoreGeneration fence is judged before
//! the verifier and before any request row is read or written, so an
//! old-generation restored session fails closed even when its bearer still
//! matches. After the fence, `(attempt_id, request_id)` is the request's
//! identity: the same identity with the same hash reconciles the recorded
//! outcome, with a different hash it conflicts.

use vstd::prelude::*;
use vstd::string::StringExecFns;

use crate::error::StoreError;
use crate::execution::{
    attempt_key, find_attempt, find_run, find_session, find_status, run_key, session_key, status_key, SessionState,
};
use crate::planning::{find_spec_row, find_task, spec_key, task_key, TaskSpecRow};
use crate::revision::Revision;
use crate::store::Store;
use crate::table::{find_last, has_key, lemma_find_last, lemma_find_last_is, lemma_unique_push, lemma_unique_update, unique_by};
use crate::text::{bytes_eq, copy_text_option, str_eq};

verus! {

/// The two consequential worker operations.
#[derive(Debug, Clone, Copy, PartialEq, Eq, Structural)]
pub enum AgentOperation {
    /// Seal the current Task Workspace into an authoritative Artifact.
    SealArtifact,
    /// Submit the Run's single immutable CandidateResult.
    SubmitResult,
}

impl AgentOperation {
    /// The stored spelling, in specifications.
    pub open spec fn spec_as_str(self) -> &'static str {
        match self {
            AgentOperation::SealArtifact => "artifact.seal",
            AgentOperation::SubmitResult => "task.submit_result",
        }
    }

    /// The stored spelling.
    #[verifier::when_used_as_spec(spec_as_str)]
    pub fn as_str(self) -> (r: &'static str)
        ensures
            r == self.spec_as_str(),
    {
        match self {
            AgentOperation::SealArtifact => "artifact.seal",
            AgentOperation::SubmitResult => "task.submit_result",
        }
    }
}

/// The credential a worker presents: which Attempt is calling, and the
/// SHA-256 verifier of the raw bearer it holds.
#[derive(Debug, Clone, Copy, PartialEq, Eq)]
pub struct AgentCredential<'a> {
    pub attempt_id: &'a str,
    pub verifier: &'a [u8; 32],
}

/// The durable state of one Agent Control request.
#[derive(Debug, Clone, PartialEq, Eq)]
pub enum AgentRequestState {
    /// Durably begun; any external effect it drives is still being
    /// reconciled.
    Started,
    /// Committed successfully; `result_ref` names the durable outcome.
    Succeeded { result_ref: String },
    /// Definitively refused; `problem_code` names why.
    Failed { problem_code: String },
}

/// What opening a request found.
#[derive(Debug, Clone, PartialEq, Eq)]
pub enum AgentRequestOpened {
    /// No prior row existed; a `STARTED` row was recorded before any
    /// external effect.
    Started,
    /// The exact identity and hash had already been recorded; nothing was
    /// created or mutated.
    Reconciled(AgentRequestState),
}

/// One declared output slot of the Task an authenticated Attempt serves.
#[derive(Debug, Clone, PartialEq, Eq)]
pub struct DeclaredOutput {
    pub name: String,
    pub kind: String,
    pub required: bool,
}

impl DeclaredOutput {
    /// An equal copy of this slot.
    pub fn copy(&self) -> (r: DeclaredOutput)
        ensures
            r == *self,
    {
        DeclaredOutput { name: self.name.clone(), kind: self.kind.clone(), required: self.required }
    }

    /// How the slot is shown to people: `name (kind)`.
    pub fn to_text(&self) -> (r: String)
        ensures
            r@ == self.name@ + " ("@ + self.kind@ + ")"@,
    {
        let mut r: String = self.name.clone();
        r.append(" (");
        r.append(self.kind.as_str());
        r.append(")");
        r
    }
}

/// An equal copy of a list of output slots.
pub fn copy_outputs(outputs: &Vec<DeclaredOutput>) -> (r: Vec<DeclaredOutput>)
    ensures
        r@ == outputs@,
{
    let mut r: Vec<DeclaredOutput> = Vec::new();
    let mut i: usize = 0;
    while i < outputs.len()
        invariant
            i <= outputs@.len(),
            r@ == outputs@.take(i as int),
        decreases outputs@.len() - i,
    {
        r.push(outputs[i].copy());
        proof {
            assert(outputs@.take(i as int + 1) =~= outputs@.take(i as int).push(outputs@[i as int]));
        }
        i = i + 1;
    }
    assert(outputs@.take(i as int) =~= outputs@);
    r
}

/// The minimal description an authenticated worker may read about its own
/// execution lineage.
#[derive(Debug, Clone, PartialEq, Eq)]
pub struct AgentSessionDescription {
    pub session_id: String,
    pub attempt_id: String,
    pub run_id: String,
    pub task_id: String,
    pub task_phase: String,
    pub task_revision: Revision,
    pub outputs: Vec<DeclaredOutput>,
}

/// What a committed Candidate submission produced.
#[derive(Debug, Clone, PartialEq, Eq)]
pub struct CandidateCommitted {
    pub candidate_digest: String,
    pub task_revision: Revision,
    pub run_revision: Revision,
}

/// Whether a submission executed or reconciled an identical committed one.
#[derive(Debug, Clone, PartialEq, Eq)]
pub struct SubmissionOutcome {
    pub committed: CandidateCommitted,
    pub reconciled: bool,
}

/// One `agent_requests` row, as stored.
#[derive(Debug)]
pub struct AgentRequestRow {
    pub attempt_id: String,
    pub request_id: String,
    pub request_hash: Vec<u8>,
    pub operation: String,
    pub state: String,
    pub result_ref: Option<String>,
    pub problem_code: Option<String>,
}

pub open spec fn request_key() -> spec_fn(AgentRequestRow) -> (Seq<char>, Seq<char>) {
    |r: AgentRequestRow| (r.attempt_id@, r.request_id@)
}

impl Store {
    /// The request ledger's invariant: one row per request identity.
    pub open spec fn agent_control_wf(&self) -> bool {
        unique_by(self.agent_requests@, request_key())
    }
}

/// How a stored state spelling and its columns read back, or `None` when
/// they are not a state the ledger can hold.
pub open spec fn request_state_spec(
    state: Seq<char>,
    result_ref: Option<String>,
    problem_code: Option<String>,
) -> Option<AgentRequestState> {
    if state == "STARTED"@ {
        Some(AgentRequestState::Started)
    } else if state == "SUCCEEDED"@ {
        match result_ref {
            Some(r) => Some(AgentRequestState::Succeeded { result_ref: r }),
            None => None,
        }
    } else if state == "FAILED"@ {
        match problem_code {
            Some(p) => Some(AgentRequestState::Failed { problem_code: p }),
            None => None,
        }
    } else {
        None
    }
}

/// Reads a stored request state back: `SUCCEEDED` must carry its result
/// reference and `FAILED` its problem code; anything else fails closed.
pub fn request_state_from(
    state: String,
    result_ref: Option<String>,
    problem_code: Option<String>,
) -> (r: Result<AgentRequestState, StoreError>)
    ensures
        match request_state_spec(state@, result_ref, problem_code) {
            Some(s) => r == Ok::<AgentRequestState, StoreError>(s),
            None => r matches Err(StoreError::InvariantViolated(_)),
        },
{
    if str_eq(state.as_str(), "STARTED") {
        Ok(AgentRequestState::Started)
    } else if str_eq(state.as_str(), "SUCCEEDED") {
        match result_ref {
            Some(result_ref) => Ok(AgentRequestState::Succeeded { result_ref }),
            None => Err(StoreError::InvariantViolated("a SUCCEEDED agent request stores no result ref".to_string())),
        }
    } else if str_eq(state.as_str(), "FAILED") {
        match problem_code {
            Some(problem_code) => Ok(AgentRequestState::Failed { problem_code }),
            None => Err(StoreError::InvariantViolated("a FAILED agent request stores no problem code".to_string())),
        }
    } else {
        Err(StoreError::InvariantViolated("agent_requests stores an unknown state".to_string()))
    }
}

/// Why a session fails its fences, decided deterministically so error text
/// cannot be used to probe rows.
pub enum SessionFacts {
    Authorized,
    Absent,
    GenerationFenced,
    NotActive(SessionState),
    VerifierMismatch,
}

/// The fences' verdict on a credential: the session must exist, belong to
/// the current RestoreGeneration, be ACTIVE, and only then match the
/// presented verifier.
pub open spec fn session_facts(s: Store, attempt_id: Seq<char>, verifier: Seq<u8>) -> SessionFacts {
    let se = find_last(s.sessions@, session_key(), attempt_id);
    if se < 0 {
        SessionFacts::Absent
    } else if s.sessions@[se].restore_generation@ != s.restore_generation@ {
        SessionFacts::GenerationFenced
    } else if !(s.sessions@[se].state is Active) {
        SessionFacts::NotActive(s.sessions@[se].state)
    } else if s.sessions@[se].credential_hash@ != verifier {
        SessionFacts::VerifierMismatch
    } else {
        SessionFacts::Authorized
    }
}

/// Whether the credential passes every session fence.
pub open spec fn authorized(s: Store, c: AgentCredential) -> bool {
    session_facts(s, c.attempt_id@, c.verifier@) is Authorized
}

/// The reason a refusal names: that of the first fence the credential
/// fails.
pub open spec fn refusal_reason(f: SessionFacts) -> Seq<char> {
    match f {
        SessionFacts::Authorized => ""@,
        SessionFacts::Absent => "no AgentControlSession exists for the Attempt"@,
        SessionFacts::GenerationFenced => "the session belongs to an older RestoreGeneration"@,
        SessionFacts::NotActive(SessionState::Revoked) => "the session is REVOKED"@,
        SessionFacts::NotActive(_) => "the session is not ACTIVE"@,
        SessionFacts::VerifierMismatch => "the presented bearer does not match the session verifier"@,
    }
}

/// The refusal an unauthorized credential receives: it names the Attempt
/// and, when a session fence failed, the first one that did.
pub open spec fn unauthorized_error(s: Store, c: AgentCredential, e: StoreError) -> bool {
    &&& e matches StoreError::AgentControlUnauthorized { attempt_id, .. } && attempt_id@ == c.attempt_id@
    &&& !authorized(s, c) ==> (e matches StoreError::AgentControlUnauthorized { reason, .. } && reason@
        == refusal_reason(session_facts(s, c.attempt_id@, c.verifier@)))
}

/// Reads and judges a session's authentication facts: the generation fence
/// before the state, and both before the verifier comparison.
pub(crate) fn judge_session(store: &Store, credential: &AgentCredential) -> (r: SessionFacts)
    requires
        store.wf(),
    ensures
        r == session_facts(*store, credential.attempt_id@, credential.verifier@),
{
    let se: usize = match find_session(&store.sessions, credential.attempt_id) {
        Some(i) => i,
        None => return SessionFacts::Absent,
    };
    let row = &store.sessions[se];
    if !str_eq(row.restore_generation.as_str(), store.restore_generation.as_str()) {
        return SessionFacts::GenerationFenced;
    }
    if row.state != SessionState::Active {
        return SessionFacts::NotActive(row.state);
    }
    if !bytes_eq(row.credential_hash.as_slice(), credential.verifier.as_slice()) {
        return SessionFacts::VerifierMismatch;
    }
    SessionFacts::Authorized
}

/// Applies the authentication fence: authorized passes, anything else
/// fails closed.
pub(crate) fn authenticate_agent_session(store: &Store, credential: &AgentCredential) -> (r: Result<(), StoreError>)
    requires
        store.wf(),
    ensures
        match r {
            Ok(()) => authorized(*store, *credential),
            Err(e) => !authorized(*store, *credential) && unauthorized_error(*store, *credential, e),
        },
{
    let reason: &'static str = match judge_session(store, credential) {
        SessionFacts::Authorized => return Ok(()),
        SessionFacts::Absent => "no AgentControlSession exists for the Attempt",
        SessionFacts::GenerationFenced => "the session belongs to an older RestoreGeneration",
        SessionFacts::NotActive(SessionState::Revoked) => "the session is REVOKED",
        SessionFacts::NotActive(_) => "the session is not ACTIVE",
        SessionFacts::VerifierMismatch => "the presented bearer does not match the session verifier",
    };
    Err(StoreError::AgentControlUnauthorized { attempt_id: credential.attempt_id.to_owned(), reason })
}

pub(crate) fn find_request(rows: &Vec<AgentRequestRow>, attempt_id: &str, request_id: &str) -> (r: Option<usize>)
    ensures
        match r {
            Some(i) => i < rows@.len() && i == find_last(rows@, request_key(), (attempt_id@, request_id@)),
            None => find_last(rows@, request_key(), (attempt_id@, request_id@)) == -1,
        },
{
    let ghost k = (attempt_id@, request_id@);
    let mut i: usize = rows.len();
    while i > 0
        invariant
            i <= rows@.len(),
            k == (attempt_id@, request_id@),
            forall|j: int| i <= j < rows@.len() ==> (request_key())(#[trigger] rows@[j]) != k,
        decreases i,
    {
        i = i - 1;
        if str_eq(rows[i].attempt_id.as_str(), attempt_id) && str_eq(rows[i].request_id.as_str(), request_id) {
            proof {
                lemma_find_last_is(rows@, request_key(), k, i as int);
            }
            return Some(i);
        }
    }
    proof {
        lemma_find_last(rows@, request_key(), k);
    }
    None
}


/// The index of the request row for a credential's Attempt and request id.
pub open spec fn request_index(s: Store, attempt_id: Seq<char>, request_id: Seq<char>) -> int {
    find_last(s.agent_requests@, request_key(), (attempt_id, request_id))
}

/// What opening a request decides on `s`, after the session fence.
pub enum OpenDecision {
    /// The credential fails a session fence.
    Unauthorized,
    /// The stored row cannot be read back.
    Corrupt,
    /// The identity was used with a different request hash.
    Conflict,
    /// The identity and hash were recorded; their state reads back.
    Reconciled(AgentRequestState),
    /// The identity is new: a `STARTED` row is recorded.
    Start,
}

/// The decision opening request `request_id` with `hash` reaches on `s`.
pub open spec fn open_decision(s: Store, c: AgentCredential, request_id: Seq<char>, hash: Seq<u8>) -> OpenDecision {
    let ri = request_index(s, c.attempt_id@, request_id);
    let row = s.agent_requests@[ri];
    if !authorized(s, c) {
        OpenDecision::Unauthorized
    } else if ri >= 0 {
        match request_state_spec(row.state@, row.result_ref, row.problem_code) {
            None => OpenDecision::Corrupt,
            Some(state) => if row.request_hash@ != hash {
                OpenDecision::Conflict
            } else {
                OpenDecision::Reconciled(state)
            },
        }
    } else {
        OpenDecision::Start
    }
}

/// The row a newly opened request records: `STARTED`, with the request's
/// identity, hash and operation.
pub open spec fn request_started(before: Store, after: Store, c: AgentCredential, op: AgentOperation, request_id: Seq<char>, hash: Seq<u8>) -> bool {
    let row = after.agent_requests@.last();
    &&& after.agent_requests@.len() == before.agent_requests@.len() + 1
    &&& after.agent_requests@.drop_last() == before.agent_requests@
    &&& row.attempt_id@ == c.attempt_id@ && row.request_id@ == request_id
    &&& row.request_hash@ == hash
    &&& row.operation@ == op.as_str()@
    &&& row.state@ == "STARTED"@
    &&& row.result_ref is None && row.problem_code is None
}

impl Store {
    /// Opens (or reconciles) the durable record of one Agent Control
    /// request: authenticate, fence the generation, then look up or create
    /// the `(attempt_id, request_id)` row, in that order. A `STARTED` row is
    /// durably represented before any external effect begins.
    pub fn open_agent_request(
        &mut self,
        credential: AgentCredential,
        operation: AgentOperation,
        request_id: &str,
        request_hash: &[u8; 32],
    ) -> (r: Result<AgentRequestOpened, StoreError>)
        requires
            old(self).wf(),
        ensures
            final(self).wf(),
            match open_decision(*old(self), credential, request_id@, request_hash@) {
                OpenDecision::Unauthorized => (r matches Err(e) && unauthorized_error(*old(self), credential, e)
                    && *final(self) == *old(self)),
                OpenDecision::Corrupt => (r matches Err(StoreError::InvariantViolated(_)) && *final(self) == *old(self)),
                OpenDecision::Conflict => (r matches Err(StoreError::AgentRequestConflict { attempt_id, request_id: rid })
                    && attempt_id@ == credential.attempt_id@ && rid@ == request_id@
                    && *final(self) == *old(self)),
                OpenDecision::Reconciled(state) => r == Ok::<AgentRequestOpened, StoreError>(AgentRequestOpened::Reconciled(state))
                    && *final(self) == *old(self),
                OpenDecision::Start => {
                    &&& r == Ok::<AgentRequestOpened, StoreError>(AgentRequestOpened::Started)
                    &&& request_started(*old(self), *final(self), credential, operation, request_id@, request_hash@)
                    &&& (Store { agent_requests: old(self).agent_requests, ..*final(self) }) == *old(self)
                },
            },
    {
        authenticate_agent_session(self, &credential)?;
        match find_request(&self.agent_requests, credential.attempt_id, request_id) {
            Some(i) => {
                let row = &self.agent_requests[i];
                let state = request_state_from(
                    row.state.clone(),
                    copy_text_option(&row.result_ref),
                    copy_text_option(&row.problem_code),
                )?;
                if !bytes_eq(row.request_hash.as_slice(), request_hash.as_slice()) {
                    return Err(
                        StoreError::AgentRequestConflict {
                            attempt_id: credential.attempt_id.to_owned(),
                            request_id: request_id.to_owned(),
                        },
                    );
                }
                Ok(AgentRequestOpened::Reconciled(state))
            },
            None => {
                let row = AgentRequestRow {
                    attempt_id: credential.attempt_id.to_owned(),
                    request_id: request_id.to_owned(),
                    request_hash: vstd::slice::slice_to_vec(request_hash.as_slice()),
                    operation: operation.as_str().to_string(),
                    state: "STARTED".to_string(),
                    result_ref: None,
                    problem_code: None,
                };
                proof {
                    lemma_find_last(self.agent_requests@, request_key(), (credential.attempt_id@, request_id@));
                    lemma_unique_push(self.agent_requests@, request_key(), row);
                }
                let ghost before = *self;
                self.agent_requests.push(row);
                proof {
                    assert(self.agent_requests@.drop_last() =~= before.agent_requests@);
                }
                Ok(AgentRequestOpened::Started)
            },
        }
    }
}

/// What completing a request does on `s`.
pub enum CompleteDecision {
    Unauthorized,
    /// A `STARTED` row records the success.
    Record,
    /// The success was already recorded: reconciliation, nothing changes.
    AlreadySucceeded,
    /// The row is absent or in a state success cannot overwrite.
    Refused,
}

pub open spec fn complete_decision(s: Store, c: AgentCredential, request_id: Seq<char>) -> CompleteDecision {
    let ri = request_index(s, c.attempt_id@, request_id);
    if !authorized(s, c) {
        CompleteDecision::Unauthorized
    } else if ri >= 0 && s.agent_requests@[ri].state@ == "STARTED"@ {
        CompleteDecision::Record
    } else if ri >= 0 && s.agent_requests@[ri].state@ == "SUCCEEDED"@ {
        CompleteDecision::AlreadySucceeded
    } else {
        CompleteDecision::Refused
    }
}

/// The request row at `ri` moved to `state` with the given outcome columns;
/// every other row is untouched.
pub open spec fn request_row_set(
    before: Store,
    after: Store,
    ri: int,
    state: Seq<char>,
    result_ref: Option<Seq<char>>,
    problem_code: Option<Seq<char>>,
) -> bool {
    let o = before.agent_requests@[ri];
    let n = after.agent_requests@[ri];
    &&& after.agent_requests@.len() == before.agent_requests@.len()
    &&& forall|j: int| 0 <= j < before.agent_requests@.len() && j != ri ==> after.agent_requests@[j] == before.agent_requests@[j]
    &&& n.attempt_id == o.attempt_id && n.request_id == o.request_id
    &&& n.request_hash@ == o.request_hash@ && n.operation == o.operation
    &&& n.state@ == state
    &&& match result_ref {
        Some(v) => n.result_ref matches Some(x) && x@ == v,
        None => n.result_ref is None,
    }
    &&& match problem_code {
        Some(v) => n.problem_code matches Some(x) && x@ == v,
        None => n.problem_code is None,
    }
}

impl Store {
    /// Replaces the request row at `ri` by one in `state` with the given
    /// outcome columns.
    fn set_request_outcome(
        &mut self,
        ri: usize,
        state: &str,
        result_ref: Option<&str>,
        problem_code: Option<&str>,
    )
        requires
            old(self).wf(),
            ri < old(self).agent_requests@.len(),
        ensures
            final(self).wf(),
            request_row_set(
                *old(self),
                *final(self),
                ri as int,
                state@,
                match result_ref {
                    Some(v) => Some(v@),
                    None => None,
                },
                match problem_code {
                    Some(v) => Some(v@),
                    None => None,
                },
            ),
            (Store { agent_requests: old(self).agent_requests, ..*final(self) }) == *old(self),
    {
        let o = &self.agent_requests[ri];
        let row = AgentRequestRow {
            attempt_id: o.attempt_id.clone(),
            request_id: o.request_id.clone(),
            request_hash: o.request_hash.clone(),
            operation: o.operation.clone(),
            state: state.to_owned(),
            result_ref: match result_ref {
                Some(v) => Some(v.to_owned()),
                None => None,
            },
            problem_code: match problem_code {
                Some(v) => Some(v.to_owned()),
                None => None,
            },
        };
        proof {
            lemma_unique_update(self.agent_requests@, request_key(), ri as int, row);
        }
        self.agent_requests.set(ri, row);
    }

    /// Records a request's successful outcome through the same fence it
    /// opened under. A session fenced mid-flight cannot record success: the
    /// row stays `STARTED`. Finding the success already recorded is
    /// reconciliation, not error.
    pub fn complete_agent_request(&mut self, credential: AgentCredential, request_id: &str, result_ref: &str) -> (r: Result<(), StoreError>)
        requires
            old(self).wf(),
        ensures
            final(self).wf(),
            match complete_decision(*old(self), credential, request_id@) {
                CompleteDecision::Unauthorized => (r matches Err(e) && unauthorized_error(*old(self), credential, e)
                    && *final(self) == *old(self)),
                CompleteDecision::Record => {
                    &&& r is Ok
                    &&& request_row_set(*old(self), *final(self), request_index(*old(self), credential.attempt_id@, request_id@),
                        "SUCCEEDED"@, Some(result_ref@), None)
                    &&& (Store { agent_requests: old(self).agent_requests, ..*final(self) }) == *old(self)
                },
                CompleteDecision::AlreadySucceeded => r is Ok && *final(self) == *old(self),
                CompleteDecision::Refused => (r matches Err(StoreError::InvariantViolated(_)) && *final(self) == *old(self)),
            },
    {
        authenticate_agent_session(self, &credential)?;
        match find_request(&self.agent_requests, credential.attempt_id, request_id) {
            Some(i) => {
                if str_eq(self.agent_requests[i].state.as_str(), "STARTED") {
                    self.set_request_outcome(i, "SUCCEEDED", Some(result_ref), None);
                    Ok(())
                } else if str_eq(self.agent_requests[i].state.as_str(), "SUCCEEDED") {
                    Ok(())
                } else {
                    Err(StoreError::InvariantViolated("the agent request is in a state success cannot overwrite".to_string()))
                }
            },
            None => Err(StoreError::InvariantViolated("the agent request has no row to complete".to_string())),
        }
    }

    /// Records a request's definitive refusal through the same fence. Only
    /// a `STARTED` row changes; a same-ID retry later reconciles the
    /// refusal instead of re-running the work.
    pub fn fail_agent_request(&mut self, credential: AgentCredential, request_id: &str, problem_code: &str) -> (r: Result<(), StoreError>)
        requires
            old(self).wf(),
        ensures
            final(self).wf(),
            !authorized(*old(self), credential) ==> (r matches Err(e) && unauthorized_error(*old(self), credential, e)
                && *final(self) == *old(self)),
            authorized(*old(self), credential) ==> r is Ok && ({
                let ri = request_index(*old(self), credential.attempt_id@, request_id@);
                if ri >= 0 && old(self).agent_requests@[ri].state@ == "STARTED"@ {
                    &&& request_row_set(*old(self), *final(self), ri, "FAILED"@, None, Some(problem_code@))
                    &&& (Store { agent_requests: old(self).agent_requests, ..*final(self) }) == *old(self)
                } else {
                    *final(self) == *old(self)
                }
            }),
    {
        authenticate_agent_session(self, &credential)?;
        match find_request(&self.agent_requests, credential.attempt_id, request_id) {
            Some(i) => {
                if str_eq(self.agent_requests[i].state.as_str(), "STARTED") {
                    self.set_request_outcome(i, "FAILED", None, Some(problem_code));
                }
                Ok(())
            },
            None => Ok(()),
        }
    }
}

// ---- Session description -----------------------------------------------------

/// The Attempt's execution lineage still carries current authority: the
/// Attempt is nonterminal, its Run is Active with this Attempt current, and
/// the Run's Task is Active with this Run responsible.
pub open spec fn lineage_current(s: Store, attempt_id: Seq<char>) -> bool {
    let ai = find_last(s.attempts@, attempt_key(), attempt_id);
    let a = s.attempts@[ai];
    let si = find_last(s.attempt_status@, status_key(), attempt_id);
    let ri = find_last(s.run_status@, run_key(), a.run_id@);
    let rs = s.run_status@[ri];
    let ti = find_last(s.tasks@, task_key(), rs.task_id@);
    let t = s.tasks@[ti];
    &&& ai >= 0
    &&& si >= 0 && !s.attempt_status@[si].terminal
    &&& ri >= 0 && rs.phase is Active && (rs.current_attempt_id matches Some(c) && c@ == attempt_id)
    &&& ti >= 0 && t.phase is Active && (t.active_run_id matches Some(r) && r@ == a.run_id@)
}

/// The description owed to an authenticated Attempt whose lineage is
/// current, when its Task's spec is stored.
pub open spec fn described(s: Store, attempt_id: Seq<char>, d: AgentSessionDescription) -> bool {
    let se = s.sessions@[find_last(s.sessions@, session_key(), attempt_id)];
    let a = s.attempts@[find_last(s.attempts@, attempt_key(), attempt_id)];
    let rs = s.run_status@[find_last(s.run_status@, run_key(), a.run_id@)];
    let t = s.tasks@[find_last(s.tasks@, task_key(), rs.task_id@)];
    let spec = s.task_specs@[find_last(s.task_specs@, spec_key(), t.spec_digest@)];
    &&& d.session_id == se.id
    &&& d.attempt_id@ == attempt_id
    &&& d.run_id == rs.run_id
    &&& d.task_id == t.id
    &&& d.task_phase@ == t.phase.spec_as_str()@
    &&& d.task_revision == t.revision
    &&& d.outputs@ == spec.outputs@
}

impl Store {
    /// The minimal description an authenticated worker may read about its
    /// own execution lineage: its session, Run and Task, the Task revision a
    /// submission's CAS is formed from, and the outputs the Task's spec
    /// declares. The credential must pass every session fence and the
    /// lineage must still carry current Run and Task authority; anything
    /// else fails closed with the same typed refusal.
    pub fn describe_agent_session(&self, credential: &AgentCredential) -> (r: Result<AgentSessionDescription, StoreError>)
        requires
            self.wf(),
        ensures
            !authorized(*self, *credential) ==> (r matches Err(e) && unauthorized_error(*self, *credential, e)),
            authorized(*self, *credential) && !lineage_current(*self, credential.attempt_id@) ==> (r matches Err(e)
                && unauthorized_error(*self, *credential, e)),
            authorized(*self, *credential) && lineage_current(*self, credential.attempt_id@) ==> {
                let a = self.attempts@[find_last(self.attempts@, attempt_key(), credential.attempt_id@)];
                let rs = self.run_status@[find_last(self.run_status@, run_key(), a.run_id@)];
                let t = self.tasks@[find_last(self.tasks@, task_key(), rs.task_id@)];
                if has_key(self.task_specs@, spec_key(), t.spec_digest@) {
                    (r matches Ok(d) && described(*self, credential.attempt_id@, d))
                } else {
                    r matches Err(StoreError::InvariantViolated(_))
                }
            },
    {
        match authenticate_agent_session(self, credential) {
            Err(e) => return Err(e),
            Ok(()) => {},
        }
        let unauthorized = StoreError::AgentControlUnauthorized {
            attempt_id: credential.attempt_id.to_owned(),
            reason: "the Attempt no longer carries current Run/Task authority",
        };
        let se: usize = match find_session(&self.sessions, credential.attempt_id) {
            Some(i) => i,
            None => return Err(unauthorized),
        };
        let ai: usize = match find_attempt(&self.attempts, credential.attempt_id) {
            Some(i) => i,
            None => return Err(unauthorized),
        };
        let a = &self.attempts[ai];
        let si: usize = match find_status(&self.attempt_status, credential.attempt_id) {
            Some(i) => i,
            None => return Err(unauthorized),
        };
        if self.attempt_status[si].terminal {
            return Err(unauthorized);
        }
        let ri: usize = match find_run(&self.run_status, a.run_id.as_str()) {
            Some(i) => i,
            None => return Err(unauthorized),
        };
        let rs = &self.run_status[ri];
        let run_current: bool = rs.phase == crate::execution::RunPhase::Active && match &rs.current_attempt_id {
            Some(c) => str_eq(c.as_str(), credential.attempt_id),
            None => false,
        };
        if !run_current {
            return Err(unauthorized);
        }
        let ti: usize = match find_task(&self.tasks, rs.task_id.as_str()) {
            Some(i) => i,
            None => return Err(unauthorized),
        };
        let t = &self.tasks[ti];
        let task_current: bool = t.phase == crate::planning::TaskPhase::Active && match &t.active_run_id {
            Some(r) => str_eq(r.as_str(), a.run_id.as_str()),
            None => false,
        };
        if !task_current {
            return Err(unauthorized);
        }
        let spec_index: usize = match find_spec_row(&self.task_specs, &t.spec_digest) {
            Some(i) => i,
            None => {
                proof {
                    lemma_find_last(self.task_specs@, spec_key(), t.spec_digest@);
                }
                return Err(StoreError::InvariantViolated("the Task's spec is not stored".to_string()));
            },
        };
        proof {
            lemma_find_last(self.task_specs@, spec_key(), t.spec_digest@);
        }
        Ok(
            AgentSessionDescription {
                session_id: self.sessions[se].id.clone(),
                attempt_id: credential.attempt_id.to_owned(),
                run_id: rs.run_id.clone(),
                task_id: t.id.clone(),
                task_phase: t.phase.as_str().to_owned(),
                task_revision: t.revision,
                outputs: copy_outputs(&self.task_specs[spec_index].outputs),
            },
        )
    }
}

} // verus!
