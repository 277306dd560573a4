//! Durable Attempt lineage: Attempt creation (T4), pre-contact credential
//! rekey (T4a), the launch-contact marker (T4b), observation recording and
//! Run conclusion, plus the reads the Run Controller reconciles through.
//!
//! The safety claims live in the store's invariants: at most one
//! nonterminal Attempt per Run, at most one Run holding the global
//! execution slot, a credential that can only be rotated before launch
//! contact, and no terminal Attempt without durable launch contact.

use vstd::prelude::*;

use crate::command::{class_of, command_recorded, gate_outcome, Command, CommandClass, Committed, Gate};
use crate::error::StoreError;
use crate::revision::Revision;
use crate::store::Store;
use crate::table::{find_last, has_key, lemma_find_last, lemma_find_last_is, lemma_find_unique, lemma_has_key_update, lemma_unique_push, lemma_unique_update, unique_by};
use crate::text::{bytes_eq, copy_text_option, str_eq};

verus! {

/// The lifecycle phase of a Run.
#[derive(Debug, Clone, Copy, PartialEq, Eq, Structural)]
pub enum RunPhase {
    Active,
    Finalizing,
    Completed,
    Failed,
    Cancelled,
    Yielded,
}

impl RunPhase {
    /// A nonterminal Run holds the global execution slot.
    pub open spec fn is_nonterminal(self) -> bool {
        self is Active || self is Finalizing
    }

    /// The stored spelling, in specifications.
    pub open spec fn spec_as_str(self) -> &'static str {
        match self {
            RunPhase::Active => "Active",
            RunPhase::Finalizing => "Finalizing",
            RunPhase::Completed => "Completed",
            RunPhase::Failed => "Failed",
            RunPhase::Cancelled => "Cancelled",
            RunPhase::Yielded => "Yielded",
        }
    }

    /// The stored spelling.
    #[verifier::when_used_as_spec(spec_as_str)]
    pub fn as_str(self) -> (r: &'static str)
        ensures
            r == self.spec_as_str(),
    {
        match self {
            RunPhase::Active => "Active",
            RunPhase::Finalizing => "Finalizing",
            RunPhase::Completed => "Completed",
            RunPhase::Failed => "Failed",
            RunPhase::Cancelled => "Cancelled",
            RunPhase::Yielded => "Yielded",
        }
    }
}

/// The normalized observation of an Attempt's external execution.
#[derive(Debug, Clone, Copy, PartialEq, Eq, Structural)]
pub enum Observation {
    Absent,
    Starting,
    Running,
    Exited,
    Unknown,
}

impl Observation {
    /// The stored spelling, in specifications.
    pub open spec fn spec_as_str(self) -> &'static str {
        match self {
            Observation::Absent => "ABSENT",
            Observation::Starting => "STARTING",
            Observation::Running => "RUNNING",
            Observation::Exited => "EXITED",
            Observation::Unknown => "UNKNOWN",
        }
    }

    /// The stored spelling.
    #[verifier::when_used_as_spec(spec_as_str)]
    pub fn as_str(self) -> (r: &'static str)
        ensures
            r == self.spec_as_str(),
    {
        match self {
            Observation::Absent => "ABSENT",
            Observation::Starting => "STARTING",
            Observation::Running => "RUNNING",
            Observation::Exited => "EXITED",
            Observation::Unknown => "UNKNOWN",
        }
    }
}

/// Whether Pantheon may already have contacted the execution backend for
/// an Attempt.
#[derive(Debug, Clone, Copy, PartialEq, Eq, Structural)]
pub enum LaunchContactState {
    NotContacted,
    ContactMayHaveOccurred,
}

impl LaunchContactState {
    /// The stored spelling, in specifications.
    pub open spec fn spec_as_str(self) -> &'static str {
        match self {
            LaunchContactState::NotContacted => "NOT_CONTACTED",
            LaunchContactState::ContactMayHaveOccurred => "CONTACT_MAY_HAVE_OCCURRED",
        }
    }

    /// The stored spelling.
    #[verifier::when_used_as_spec(spec_as_str)]
    pub fn as_str(self) -> (r: &'static str)
        ensures
            r == self.spec_as_str(),
    {
        match self {
            LaunchContactState::NotContacted => "NOT_CONTACTED",
            LaunchContactState::ContactMayHaveOccurred => "CONTACT_MAY_HAVE_OCCURRED",
        }
    }
}

/// The state of an Attempt-scoped Agent Control session.
#[derive(Debug, Clone, Copy, PartialEq, Eq, Structural)]
pub enum SessionState {
    Active,
    Revoked,
}

impl SessionState {
    /// The stored spelling, in specifications.
    pub open spec fn spec_as_str(self) -> &'static str {
        match self {
            SessionState::Active => "ACTIVE",
            SessionState::Revoked => "REVOKED",
        }
    }

    /// The stored spelling.
    #[verifier::when_used_as_spec(spec_as_str)]
    pub fn as_str(self) -> (r: &'static str)
        ensures
            r == self.spec_as_str(),
    {
        match self {
            SessionState::Active => "ACTIVE",
            SessionState::Revoked => "REVOKED",
        }
    }
}

/// One `run_status` row: a Run's mutable lifecycle.
#[derive(Debug)]
pub struct RunStatusRow {
    pub run_id: String,
    pub task_id: String,
    pub phase: RunPhase,
    pub terminal_target: Option<RunPhase>,
    pub revision: i64,
    /// Whether this Run holds the single global execution slot.
    pub active_slot: bool,
    pub current_attempt_id: Option<String>,
}

/// The one-time Run-to-ContextPlan attachment, as stored.
#[derive(Debug, Clone, PartialEq, Eq)]
pub struct RunContextPlanRecord {
    pub run_id: String,
    pub context_source_snapshot_digest: [u8; 32],
    pub context_plan_digest: [u8; 32],
}

/// An immutable Attempt identity row, as stored.
#[derive(Debug, Clone, PartialEq, Eq)]
pub struct AttemptRecord {
    pub id: String,
    pub run_id: String,
    pub ordinal: i64,
    pub launch_key: String,
}

impl AttemptRecord {
    /// An equal copy of this record.
    pub fn copy(&self) -> (r: AttemptRecord)
        ensures
            r == *self,
    {
        AttemptRecord {
            id: self.id.clone(),
            run_id: self.run_id.clone(),
            ordinal: self.ordinal,
            launch_key: self.launch_key.clone(),
        }
    }
}

/// One `attempt_status` row: an Attempt's mutable lifecycle.
#[derive(Debug)]
pub struct AttemptStatusRow {
    pub attempt_id: String,
    pub run_id: String,
    pub observed_execution: Observation,
    pub terminal: bool,
    pub revision: i64,
    pub launch_contact_state: LaunchContactState,
    pub launch_contact_initiated_at: Option<i64>,
    pub launch_contact_epoch: Option<String>,
    pub started_at: Option<i64>,
    pub finished_at: Option<i64>,
}

/// One `agent_control_sessions` row.
#[derive(Debug)]
pub struct SessionRow {
    pub id: String,
    pub attempt_id: String,
    /// The RestoreGeneration the session was created under, immutably.
    pub restore_generation: String,
    pub credential_revision: i64,
    /// SHA-256 verifier of the raw bearer.
    pub credential_hash: Vec<u8>,
    pub state: SessionState,
    pub revocation_reason: Option<String>,
    /// When the credential was last rotated before launch contact.
    pub credential_rekeyed_at: Option<i64>,
    /// When the session was revoked; set exactly when it is not `Active`.
    pub revoked_at: Option<i64>,
}

/// One Attempt-scoped Agent Control identity, minus every secret-derived
/// field.
#[derive(Debug, Clone, PartialEq, Eq)]
pub struct AgentControlSessionView {
    pub id: String,
    pub attempt_id: String,
    pub restore_generation: String,
    pub credential_revision: i64,
    pub state: String,
}

/// One restart-inventory entry: a nonterminal Run and its current Attempt.
#[derive(Debug, Clone, PartialEq, Eq)]
pub struct RunInventoryEntry {
    pub run_id: String,
    pub task_id: String,
    pub phase: String,
    pub revision: Revision,
    pub current_attempt_id: Option<String>,
}

/// What Attempt creation committed.
#[derive(Debug, Clone, PartialEq, Eq)]
pub struct AttemptCreated {
    pub attempt_id: String,
    pub run_id: String,
    pub ordinal: i64,
    pub launch_key: String,
    pub session_id: String,
    pub restore_generation: String,
}

/// The authoritative input to Attempt creation. Identities are supplied by
/// the controller; the store persists them and refuses inconsistency.
#[derive(Debug, Clone)]
pub struct AttemptCreation<'a> {
    pub run_id: &'a str,
    pub attempt_id: &'a str,
    pub launch_key: &'a str,
    pub session_id: &'a str,
    pub credential_verifier: &'a [u8; 32],
    /// The `run_status` revision the caller observed.
    pub expected_run_status_revision: Revision,
}

/// What the controller asks an observation update to do.
#[derive(Debug, Clone, Copy, PartialEq, Eq)]
pub enum ObservationUpdate {
    /// Record a factual observation; the Attempt stays nonterminal.
    Observe(Observation),
    /// Definitively end the lineage and revoke its session.
    Terminal(Observation),
}

// ---- Keys --------------------------------------------------------------

pub open spec fn run_key() -> spec_fn(RunStatusRow) -> Seq<char> {
    |r: RunStatusRow| r.run_id@
}

pub open spec fn plan_key() -> spec_fn(RunContextPlanRecord) -> Seq<char> {
    |r: RunContextPlanRecord| r.run_id@
}

pub open spec fn attempt_key() -> spec_fn(AttemptRecord) -> Seq<char> {
    |r: AttemptRecord| r.id@
}

pub open spec fn launch_key_key() -> spec_fn(AttemptRecord) -> Seq<char> {
    |r: AttemptRecord| r.launch_key@
}

pub open spec fn status_key() -> spec_fn(AttemptStatusRow) -> Seq<char> {
    |r: AttemptStatusRow| r.attempt_id@
}

pub open spec fn session_key() -> spec_fn(SessionRow) -> Seq<char> {
    |r: SessionRow| r.attempt_id@
}

pub open spec fn session_id_key() -> spec_fn(SessionRow) -> Seq<char> {
    |r: SessionRow| r.id@
}

// ---- Invariants --------------------------------------------------------

/// The stored constraints of one Attempt status row: launch-contact facts
/// exist exactly when contact may have occurred, only a terminal Attempt
/// has finished, and no Attempt is terminal without durable contact.
pub open spec fn status_row_wf(r: AttemptStatusRow) -> bool {
    &&& (r.launch_contact_state is NotContacted) == (r.launch_contact_initiated_at is None)
    &&& (r.launch_contact_state is NotContacted) == (r.launch_contact_epoch is None)
    &&& !r.terminal ==> r.finished_at is None
    &&& r.terminal ==> r.launch_contact_state is ContactMayHaveOccurred
    &&& r.revision >= 1
}

/// The stored constraints of one Run status row: exactly the nonterminal
/// Runs hold the execution slot, and a Finalizing Run names its target.
pub open spec fn run_row_wf(r: RunStatusRow) -> bool {
    &&& r.active_slot == r.phase.is_nonterminal()
    &&& r.phase is Finalizing ==> r.terminal_target is Some
    &&& r.revision >= 1
}

impl Store {
    /// The execution lineage's invariants.
    pub open spec fn execution_wf(&self) -> bool {
        &&& unique_by(self.run_status@, run_key())
        &&& forall|i: int| 0 <= i < self.run_status@.len() ==> run_row_wf(#[trigger] self.run_status@[i])
        &&& forall|i: int, j: int|
            0 <= i < self.run_status@.len() && 0 <= j < self.run_status@.len() && i != j
                && #[trigger] self.run_status@[i].active_slot ==> !#[trigger] self.run_status@[j].active_slot
        &&& unique_by(self.run_context_plans@, plan_key())
        &&& unique_by(self.attempts@, attempt_key())
        &&& unique_by(self.attempts@, launch_key_key())
        &&& unique_by(self.attempt_status@, status_key())
        &&& forall|i: int| 0 <= i < self.attempt_status@.len() ==> status_row_wf(#[trigger] self.attempt_status@[i])
        &&& forall|i: int, j: int|
            0 <= i < self.attempt_status@.len() && 0 <= j < self.attempt_status@.len() && i != j
                && !(#[trigger] self.attempt_status@[i]).terminal && !(#[trigger] self.attempt_status@[j]).terminal
                ==> self.attempt_status@[i].run_id@ != self.attempt_status@[j].run_id@
        &&& unique_by(self.sessions@, session_key())
        &&& unique_by(self.sessions@, session_id_key())
        &&& forall|i: int| 0 <= i < self.sessions@.len() ==> (#[trigger] self.sessions@[i]).credential_revision >= 1
            && (self.sessions@[i].state is Active <==> self.sessions@[i].revoked_at is None)
    }
}

// ---- Lookups -----------------------------------------------------------

pub(crate) fn find_run(rows: &Vec<RunStatusRow>, run_id: &str) -> (r: Option<usize>)
    ensures
        match r {
            Some(i) => i < rows@.len() && i == find_last(rows@, run_key(), run_id@),
            None => find_last(rows@, run_key(), run_id@) == -1,
        },
{
    let mut i: usize = rows.len();
    while i > 0
        invariant
            i <= rows@.len(),
            forall|j: int| i <= j < rows@.len() ==> (run_key())(#[trigger] rows@[j]) != run_id@,
        decreases i,
    {
        i = i - 1;
        if str_eq(rows[i].run_id.as_str(), run_id) {
            proof {
                lemma_find_last_is(rows@, run_key(), run_id@, i as int);
            }
            return Some(i);
        }
    }
    proof {
        lemma_find_last(rows@, run_key(), run_id@);
    }
    None
}

fn has_attached_plan(rows: &Vec<RunContextPlanRecord>, run_id: &str) -> (r: bool)
    ensures
        r == has_key(rows@, plan_key(), run_id@),
{
    let mut i: usize = 0;
    while i < rows.len()
        invariant
            i <= rows@.len(),
            forall|j: int| 0 <= j < i ==> (plan_key())(#[trigger] rows@[j]) != run_id@,
        decreases rows@.len() - i,
    {
        if str_eq(rows[i].run_id.as_str(), run_id) {
            assert((plan_key())(rows@[i as int]) == run_id@);
            return true;
        }
        i = i + 1;
    }
    false
}

pub(crate) fn find_attempt(rows: &Vec<AttemptRecord>, id: &str) -> (r: Option<usize>)
    ensures
        match r {
            Some(i) => i < rows@.len() && i == find_last(rows@, attempt_key(), id@),
            None => find_last(rows@, attempt_key(), id@) == -1,
        },
{
    let mut i: usize = rows.len();
    while i > 0
        invariant
            i <= rows@.len(),
            forall|j: int| i <= j < rows@.len() ==> (attempt_key())(#[trigger] rows@[j]) != id@,
        decreases i,
    {
        i = i - 1;
        if str_eq(rows[i].id.as_str(), id) {
            proof {
                lemma_find_last_is(rows@, attempt_key(), id@, i as int);
            }
            return Some(i);
        }
    }
    proof {
        lemma_find_last(rows@, attempt_key(), id@);
    }
    None
}

fn has_launch_key(rows: &Vec<AttemptRecord>, launch_key: &str) -> (r: bool)
    ensures
        r == has_key(rows@, launch_key_key(), launch_key@),
{
    let mut i: usize = 0;
    while i < rows.len()
        invariant
            i <= rows@.len(),
            forall|j: int| 0 <= j < i ==> (launch_key_key())(#[trigger] rows@[j]) != launch_key@,
        decreases rows@.len() - i,
    {
        if str_eq(rows[i].launch_key.as_str(), launch_key) {
            assert((launch_key_key())(rows@[i as int]) == launch_key@);
            return true;
        }
        i = i + 1;
    }
    false
}

pub(crate) fn find_status(rows: &Vec<AttemptStatusRow>, attempt_id: &str) -> (r: Option<usize>)
    ensures
        match r {
            Some(i) => i < rows@.len() && i == find_last(rows@, status_key(), attempt_id@),
            None => find_last(rows@, status_key(), attempt_id@) == -1,
        },
{
    let mut i: usize = rows.len();
    while i > 0
        invariant
            i <= rows@.len(),
            forall|j: int| i <= j < rows@.len() ==> (status_key())(#[trigger] rows@[j]) != attempt_id@,
        decreases i,
    {
        i = i - 1;
        if str_eq(rows[i].attempt_id.as_str(), attempt_id) {
            proof {
                lemma_find_last_is(rows@, status_key(), attempt_id@, i as int);
            }
            return Some(i);
        }
    }
    proof {
        lemma_find_last(rows@, status_key(), attempt_id@);
    }
    None
}

pub(crate) fn find_session(rows: &Vec<SessionRow>, attempt_id: &str) -> (r: Option<usize>)
    ensures
        match r {
            Some(i) => i < rows@.len() && i == find_last(rows@, session_key(), attempt_id@),
            None => find_last(rows@, session_key(), attempt_id@) == -1,
        },
{
    let mut i: usize = rows.len();
    while i > 0
        invariant
            i <= rows@.len(),
            forall|j: int| i <= j < rows@.len() ==> (session_key())(#[trigger] rows@[j]) != attempt_id@,
        decreases i,
    {
        i = i - 1;
        if str_eq(rows[i].attempt_id.as_str(), attempt_id) {
            proof {
                lemma_find_last_is(rows@, session_key(), attempt_id@, i as int);
            }
            return Some(i);
        }
    }
    proof {
        lemma_find_last(rows@, session_key(), attempt_id@);
    }
    None
}

fn has_session_id(rows: &Vec<SessionRow>, id: &str) -> (r: bool)
    ensures
        r == has_key(rows@, session_id_key(), id@),
{
    let mut i: usize = 0;
    while i < rows.len()
        invariant
            i <= rows@.len(),
            forall|j: int| 0 <= j < i ==> (session_id_key())(#[trigger] rows@[j]) != id@,
        decreases rows@.len() - i,
    {
        if str_eq(rows[i].id.as_str(), id) {
            assert((session_id_key())(rows@[i as int]) == id@);
            return true;
        }
        i = i + 1;
    }
    false
}

/// Whether some nonterminal Attempt status names the Run.
pub open spec fn has_live_attempt(rows: Seq<AttemptStatusRow>, run_id: Seq<char>) -> bool {
    exists|i: int| 0 <= i < rows.len() && !(#[trigger] rows[i]).terminal && rows[i].run_id@ == run_id
}

fn find_live_attempt(rows: &Vec<AttemptStatusRow>, run_id: &str) -> (r: bool)
    ensures
        r == has_live_attempt(rows@, run_id@),
{
    let mut i: usize = 0;
    while i < rows.len()
        invariant
            i <= rows@.len(),
            forall|j: int| 0 <= j < i ==> !(!(#[trigger] rows@[j]).terminal && rows@[j].run_id@ == run_id@),
        decreases rows@.len() - i,
    {
        if !rows[i].terminal && str_eq(rows[i].run_id.as_str(), run_id) {
            return true;
        }
        i = i + 1;
    }
    false
}

/// The largest ordinal any Attempt of the Run carries, 0 when it has none.
pub open spec fn max_ordinal(rows: Seq<AttemptRecord>, run_id: Seq<char>) -> int
    decreases rows.len(),
{
    if rows.len() == 0 {
        0
    } else {
        let rest = max_ordinal(rows.drop_last(), run_id);
        if rows.last().run_id@ == run_id && rows.last().ordinal > rest {
            rows.last().ordinal as int
        } else {
            rest
        }
    }
}

/// How many Attempts the Run has ever created.
pub open spec fn attempt_count(rows: Seq<AttemptRecord>, run_id: Seq<char>) -> int
    decreases rows.len(),
{
    if rows.len() == 0 {
        0
    } else {
        attempt_count(rows.drop_last(), run_id) + if rows.last().run_id@ == run_id {
            1int
        } else {
            0int
        }
    }
}

proof fn lemma_max_ordinal_bounds(rows: Seq<AttemptRecord>, run_id: Seq<char>)
    ensures
        max_ordinal(rows, run_id) >= 0,
        max_ordinal(rows, run_id) <= i64::MAX,
        forall|i: int|
            0 <= i < rows.len() && (#[trigger] rows[i]).run_id@ == run_id ==> rows[i].ordinal
                <= max_ordinal(rows, run_id),
    decreases rows.len(),
{
    if rows.len() > 0 {
        lemma_max_ordinal_bounds(rows.drop_last(), run_id);
        assert forall|i: int|
            0 <= i < rows.len() && (#[trigger] rows[i]).run_id@ == run_id implies rows[i].ordinal
            <= max_ordinal(rows, run_id) by {
            if i < rows.len() - 1 {
                assert(rows[i] == rows.drop_last()[i]);
            }
        }
    }
}

fn next_ordinal_base(rows: &Vec<AttemptRecord>, run_id: &str) -> (r: i64)
    ensures
        r == max_ordinal(rows@, run_id@),
{
    let mut best: i64 = 0;
    let mut i: usize = 0;
    while i < rows.len()
        invariant
            i <= rows@.len(),
            best == max_ordinal(rows@.subrange(0, i as int), run_id@),
        decreases rows@.len() - i,
    {
        proof {
            let next = rows@.subrange(0, i + 1);
            assert(next.drop_last() =~= rows@.subrange(0, i as int));
            assert(next.last() == rows@[i as int]);
        }
        if str_eq(rows[i].run_id.as_str(), run_id) && rows[i].ordinal > best {
            best = rows[i].ordinal;
        }
        i = i + 1;
    }
    assert(rows@.subrange(0, rows@.len() as int) =~= rows@);
    best
}

fn count_attempts(rows: &Vec<AttemptRecord>, run_id: &str) -> (r: i64)
    requires
        rows@.len() <= i64::MAX,
    ensures
        r == attempt_count(rows@, run_id@),
{
    let mut count: i64 = 0;
    let mut i: usize = 0;
    while i < rows.len()
        invariant
            i <= rows@.len(),
            count == attempt_count(rows@.subrange(0, i as int), run_id@),
            0 <= count <= i,
            rows@.len() <= i64::MAX,
        decreases rows@.len() - i,
    {
        proof {
            let next = rows@.subrange(0, i + 1);
            assert(next.drop_last() =~= rows@.subrange(0, i as int));
            assert(next.last() == rows@[i as int]);
        }
        if str_eq(rows[i].run_id.as_str(), run_id) {
            count = count + 1;
        }
        i = i + 1;
    }
    assert(rows@.subrange(0, rows@.len() as int) =~= rows@);
    count
}


// ---- Attempt creation (T4) ---------------------------------------------

fn not_ready(run_id: &str, detail: &str) -> (e: StoreError)
    ensures
        e matches StoreError::AttemptNotLaunchReady { run_id: r, .. } && r@ == run_id@,
{
    StoreError::AttemptNotLaunchReady { run_id: run_id.to_owned(), detail: detail.to_owned() }
}

/// Why Attempt creation refuses, or that it may commit, decided in the
/// order the transaction checks.
pub enum AttemptDecision {
    /// The Run does not exist or is not Active.
    RunNotActive,
    /// The Run's status moved since the caller observed it.
    StaleRun(i64),
    /// No ContextPlan is attached: the Run is not LaunchReady.
    NoContextPlan,
    /// A nonterminal Attempt already owns the Run.
    LiveAttempt,
    /// A supplied identity is malformed or already taken.
    IdentityTaken,
    /// A counter the creation advances has no room left.
    Exhausted,
    /// Every precondition holds.
    Admitted,
}

/// The supplied identities are well formed and unused: a fresh Attempt id
/// and session id of 1 to 128 characters and a fresh 64-character launch
/// key.
pub open spec fn creation_identities_fresh(s: Store, c: AttemptCreation) -> bool {
    &&& 1 <= c.attempt_id@.len() <= 128
    &&& 1 <= c.session_id@.len() <= 128
    &&& c.launch_key@.len() == 64
    &&& !has_key(s.attempts@, attempt_key(), c.attempt_id@)
    &&& !has_key(s.attempts@, launch_key_key(), c.launch_key@)
    &&& !has_key(s.attempt_status@, status_key(), c.attempt_id@)
    &&& !has_key(s.sessions@, session_key(), c.attempt_id@)
    &&& !has_key(s.sessions@, session_id_key(), c.session_id@)
}

/// The decision Attempt creation reaches on `s`.
pub open spec fn attempt_decision(s: Store, c: AttemptCreation) -> AttemptDecision {
    let ri = find_last(s.run_status@, run_key(), c.run_id@);
    if ri < 0 || !(s.run_status@[ri].phase is Active) {
        AttemptDecision::RunNotActive
    } else if s.run_status@[ri].revision != c.expected_run_status_revision.value {
        AttemptDecision::StaleRun(s.run_status@[ri].revision)
    } else if !has_key(s.run_context_plans@, plan_key(), c.run_id@) {
        AttemptDecision::NoContextPlan
    } else if has_live_attempt(s.attempt_status@, c.run_id@) {
        AttemptDecision::LiveAttempt
    } else if !creation_identities_fresh(s, c) {
        AttemptDecision::IdentityTaken
    } else if s.run_status@[ri].revision >= i64::MAX || max_ordinal(s.attempts@, c.run_id@)
        >= i64::MAX {
        AttemptDecision::Exhausted
    } else {
        AttemptDecision::Admitted
    }
}

/// The state Attempt creation commits, apart from the journal and ledger:
/// the Attempt at the next Run-local ordinal, its `NOT_CONTACTED` status,
/// its ACTIVE session bound to the current RestoreGeneration at credential
/// revision 1, and the Run's current-Attempt pointer under a new revision.
pub open spec fn attempt_created(before: Store, after: Store, c: AttemptCreation, v: AttemptCreated) -> bool {
    let ri = find_last(before.run_status@, run_key(), c.run_id@);
    let run = before.run_status@[ri];
    let new_run = after.run_status@[ri];
    let a = after.attempts@.last();
    let st = after.attempt_status@.last();
    let se = after.sessions@.last();
    &&& v.attempt_id@ == c.attempt_id@
    &&& v.run_id@ == c.run_id@
    &&& v.ordinal == max_ordinal(before.attempts@, c.run_id@) + 1
    &&& v.launch_key@ == c.launch_key@
    &&& v.session_id@ == c.session_id@
    &&& v.restore_generation@ == before.restore_generation@
    &&& after.attempts@.len() == before.attempts@.len() + 1
    &&& after.attempts@.drop_last() == before.attempts@
    &&& a.id@ == c.attempt_id@ && a.run_id@ == c.run_id@ && a.ordinal == v.ordinal
    &&& a.launch_key@ == c.launch_key@
    &&& after.attempt_status@.len() == before.attempt_status@.len() + 1
    &&& after.attempt_status@.drop_last() == before.attempt_status@
    &&& st.attempt_id@ == c.attempt_id@ && st.run_id@ == c.run_id@
    &&& st.observed_execution is Absent && !st.terminal && st.revision == 1
    &&& st.launch_contact_state is NotContacted
    &&& st.launch_contact_initiated_at is None && st.launch_contact_epoch is None
    &&& st.started_at is None && st.finished_at is None
    &&& after.sessions@.len() == before.sessions@.len() + 1
    &&& after.sessions@.drop_last() == before.sessions@
    &&& se.id@ == c.session_id@ && se.attempt_id@ == c.attempt_id@
    &&& se.restore_generation@ == before.restore_generation@
    &&& se.credential_revision == 1 && se.credential_hash@ == c.credential_verifier@
    &&& se.state is Active && se.revocation_reason is None
    &&& after.run_status@.len() == before.run_status@.len()
    &&& forall|j: int| 0 <= j < before.run_status@.len() && j != ri ==> after.run_status@[j] == before.run_status@[j]
    &&& new_run.run_id == run.run_id && new_run.task_id == run.task_id
    &&& new_run.phase == run.phase && new_run.terminal_target == run.terminal_target
    &&& new_run.active_slot == run.active_slot
    &&& new_run.revision == run.revision + 1
    &&& new_run.current_attempt_id matches Some(cur) && cur@ == c.attempt_id@
}

/// T4's complete contract: the kernel's gate, and for a fresh command the
/// refusal each decision owes with nothing written, or the new lineage, its
/// trace and nothing else.
pub open spec fn attempt_creation_contract(
    before: Store,
    after: Store,
    c: Command,
    creation: AttemptCreation,
    r: Result<Committed<AttemptCreated>, StoreError>,
) -> bool {
    &&& gate_outcome(before, after, c, r)
    &&& class_of(before, c) is Fresh ==> match attempt_decision(before, creation) {
                AttemptDecision::RunNotActive => (r matches Err(StoreError::AttemptNotLaunchReady { run_id, .. })
                    && run_id@ == creation.run_id@ && after == before),
                AttemptDecision::StaleRun(actual) => (r matches Err(StoreError::RevisionConflict { table, id, expected, actual: a })
                    && table@ == "run_status"@ && id@ == creation.run_id@
                    && expected == creation.expected_run_status_revision.value && a == Some(actual)
                    && after == before),
                AttemptDecision::NoContextPlan => (r matches Err(StoreError::AttemptNotLaunchReady { run_id, .. })
                    && run_id@ == creation.run_id@ && after == before),
                AttemptDecision::LiveAttempt => (r matches Err(StoreError::AttemptNotLaunchReady { run_id, .. })
                    && run_id@ == creation.run_id@ && after == before),
                AttemptDecision::IdentityTaken => (r matches Err(StoreError::ConstraintViolated(_))
                    && after == before),
                AttemptDecision::Exhausted => (r matches Err(StoreError::InvariantViolated(_))
                    && after == before),
                AttemptDecision::Admitted => {
                    &&& r matches Ok(Committed::Executed { value, cursor })
                    &&& attempt_created(before, after, creation, value)
                    &&& command_recorded(before, after, c, cursor)
                    &&& (Store {
                        attempts: before.attempts,
                        attempt_status: before.attempt_status,
                        sessions: before.sessions,
                        run_status: before.run_status,
                        events: before.events,
                        next_sequence: before.next_sequence,
                        commands: before.commands,
                        ..after
                    }) == before
                },
            }
}

/// The Run an Attempt creation names is live: its status row exists and
/// is `Active`.
pub open spec fn creation_run_active(s: Store, c: AttemptCreation) -> bool {
    let ri = find_last(s.run_status@, run_key(), c.run_id@);
    ri >= 0 && s.run_status@[ri].phase is Active
}

impl Store {
    /// Commits one Attempt creation (T4/T8) under the caller's command
    /// identity: re-reads the Run, requires it Active at the expected
    /// revision with its ContextPlan attached and no nonterminal Attempt,
    /// assigns the next Run-local ordinal, and commits the Attempt, its
    /// status, its session and the Run's current-Attempt pointer together
    /// with the command's Event and ledger row. A retry under the same
    /// identity and hash replays the committed outcome; nothing is written
    /// on any refusal.
    pub fn create_attempt(&mut self, command: &Command, creation: &AttemptCreation) -> (r: Result<
        Committed<AttemptCreated>,
        StoreError,
    >)
        requires
            old(self).wf(),
        ensures
            final(self).wf(),
            attempt_creation_contract(*old(self), *final(self), *command, *creation, r),
            r matches Ok(Committed::Executed { .. }) ==> creation_run_active(*old(self), *creation),
            class_of(*old(self), *command) is Fresh && !creation_run_active(*old(self), *creation) ==> (r matches Err(
                StoreError::AttemptNotLaunchReady { run_id, .. },
            ) && run_id@ == creation.run_id@ && *final(self) == *old(self)),
    {
        let r = self.create_attempt_checked(command, creation);
        proof {
            crate::laws::law_attempts_start_only_under_an_active_run(*old(self), *self, *command, *creation, r);
        }
        r
    }

    fn create_attempt_checked(&mut self, command: &Command, creation: &AttemptCreation) -> (r: Result<
        Committed<AttemptCreated>,
        StoreError,
    >)
        requires
            old(self).wf(),
        ensures
            final(self).wf(),
            gate_outcome(*old(self), *final(self), *command, r),
            class_of(*old(self), *command) is Fresh ==> match attempt_decision(*old(self), *creation) {
                AttemptDecision::RunNotActive => (r matches Err(StoreError::AttemptNotLaunchReady { run_id, .. })
                    && run_id@ == creation.run_id@ && *final(self) == *old(self)),
                AttemptDecision::StaleRun(actual) => (r matches Err(StoreError::RevisionConflict { table, id, expected, actual: a })
                    && table@ == "run_status"@ && id@ == creation.run_id@
                    && expected == creation.expected_run_status_revision.value && a == Some(actual)
                    && *final(self) == *old(self)),
                AttemptDecision::NoContextPlan => (r matches Err(StoreError::AttemptNotLaunchReady { run_id, .. })
                    && run_id@ == creation.run_id@ && *final(self) == *old(self)),
                AttemptDecision::LiveAttempt => (r matches Err(StoreError::AttemptNotLaunchReady { run_id, .. })
                    && run_id@ == creation.run_id@ && *final(self) == *old(self)),
                AttemptDecision::IdentityTaken => (r matches Err(StoreError::ConstraintViolated(_))
                    && *final(self) == *old(self)),
                AttemptDecision::Exhausted => (r matches Err(StoreError::InvariantViolated(_))
                    && *final(self) == *old(self)),
                AttemptDecision::Admitted => {
                    &&& r matches Ok(Committed::Executed { value, cursor })
                    &&& attempt_created(*old(self), *final(self), *creation, value)
                    &&& command_recorded(*old(self), *final(self), *command, cursor)
                    &&& (Store {
                        attempts: old(self).attempts,
                        attempt_status: old(self).attempt_status,
                        sessions: old(self).sessions,
                        run_status: old(self).run_status,
                        events: old(self).events,
                        next_sequence: old(self).next_sequence,
                        commands: old(self).commands,
                        ..*final(self)
                    }) == *old(self)
                },
            },
    {
        match self.command_gate(command) {
            Err(e) => return Err(e),
            Ok(Gate::Replayed { cursor, recorded_at }) => {
                return Ok(Committed::Replayed { cursor, recorded_at });
            },
            Ok(Gate::Fresh) => {},
        }
        let ghost before = *self;
        let value = match self.apply_attempt_creation(creation) {
            Ok(v) => v,
            Err(e) => return Err(e),
        };
        let ghost mid = *self;
        assert(class_of(mid, *command) is Fresh) by {
            assert(mid.commands == before.commands);
            assert(mid.restore_generation == before.restore_generation);
            assert(mid.next_sequence == before.next_sequence);
        }
        let cursor = self.record_command(command);
        proof {
            assert(self.attempts == mid.attempts);
            assert(self.run_status == mid.run_status);
        }
        Ok(Committed::Executed { value, cursor })
    }

    fn apply_attempt_creation(&mut self, creation: &AttemptCreation) -> (r: Result<AttemptCreated, StoreError>)
        requires
            old(self).wf(),
        ensures
            final(self).wf(),
            match attempt_decision(*old(self), *creation) {
                AttemptDecision::RunNotActive => (r matches Err(StoreError::AttemptNotLaunchReady { run_id, .. })
                    && run_id@ == creation.run_id@ && *final(self) == *old(self)),
                AttemptDecision::StaleRun(actual) => (r matches Err(StoreError::RevisionConflict { table, id, expected, actual: a })
                    && table@ == "run_status"@ && id@ == creation.run_id@
                    && expected == creation.expected_run_status_revision.value && a == Some(actual)
                    && *final(self) == *old(self)),
                AttemptDecision::NoContextPlan => (r matches Err(StoreError::AttemptNotLaunchReady { run_id, .. })
                    && run_id@ == creation.run_id@ && *final(self) == *old(self)),
                AttemptDecision::LiveAttempt => (r matches Err(StoreError::AttemptNotLaunchReady { run_id, .. })
                    && run_id@ == creation.run_id@ && *final(self) == *old(self)),
                AttemptDecision::IdentityTaken => (r matches Err(StoreError::ConstraintViolated(_))
                    && *final(self) == *old(self)),
                AttemptDecision::Exhausted => (r matches Err(StoreError::InvariantViolated(_))
                    && *final(self) == *old(self)),
                AttemptDecision::Admitted => {
                    &&& r matches Ok(value)
                    &&& attempt_created(*old(self), *final(self), *creation, value)
                    &&& (Store {
                        attempts: old(self).attempts,
                        attempt_status: old(self).attempt_status,
                        sessions: old(self).sessions,
                        run_status: old(self).run_status,
                        ..*final(self)
                    }) == *old(self)
                },
            },
    {
        // 1. The Run must exist and be Active at the observed revision.
        let ri: usize = match find_run(&self.run_status, creation.run_id) {
            Some(i) => i,
            None => return Err(not_ready(creation.run_id, "the Run does not exist or is not Active")),
        };
        if self.run_status[ri].phase != RunPhase::Active {
            return Err(not_ready(creation.run_id, "the Run does not exist or is not Active"));
        }
        let current_revision: i64 = self.run_status[ri].revision;
        if current_revision != creation.expected_run_status_revision.value {
            return Err(
                StoreError::RevisionConflict {
                    table: "run_status",
                    id: creation.run_id.to_owned(),
                    expected: creation.expected_run_status_revision.value,
                    actual: Some(current_revision),
                },
            );
        }
        // 2. LaunchReady includes the frozen context.
        if !has_attached_plan(&self.run_context_plans, creation.run_id) {
            return Err(not_ready(creation.run_id, "no ContextPlan is attached; the Run is not LaunchReady"));
        }
        // 3. At most one nonterminal Attempt per Run.
        if find_live_attempt(&self.attempt_status, creation.run_id) {
            return Err(not_ready(creation.run_id, "a nonterminal attempt already owns this Run"));
        }
        // 4. The supplied identities must be well formed and unused.
        let attempt_len: usize = creation.attempt_id.unicode_len();
        let session_len: usize = creation.session_id.unicode_len();
        let key_len: usize = creation.launch_key.unicode_len();
        if attempt_len < 1 || attempt_len > 128 || session_len < 1 || session_len > 128 || key_len
            != 64 || find_attempt(&self.attempts, creation.attempt_id).is_some() || has_launch_key(
            &self.attempts,
            creation.launch_key,
        ) || find_status(&self.attempt_status, creation.attempt_id).is_some() || find_session(
            &self.sessions,
            creation.attempt_id,
        ).is_some() || has_session_id(&self.sessions, creation.session_id) {
            proof {
                lemma_find_last(self.attempts@, attempt_key(), creation.attempt_id@);
                lemma_find_last(self.attempt_status@, status_key(), creation.attempt_id@);
                lemma_find_last(self.sessions@, session_key(), creation.attempt_id@);
            }
            return Err(
                StoreError::ConstraintViolated(
                    "an Attempt, LaunchKey or session identity is malformed or already used".to_string(),
                ),
            );
        }
        proof {
            lemma_find_last(self.attempts@, attempt_key(), creation.attempt_id@);
            lemma_find_last(self.attempt_status@, status_key(), creation.attempt_id@);
            lemma_find_last(self.sessions@, session_key(), creation.attempt_id@);
        }
        // 5. The ordinal is strictly Run-local history position.
        let base: i64 = next_ordinal_base(&self.attempts, creation.run_id);
        if current_revision >= i64::MAX || base >= i64::MAX {
            return Err(
                StoreError::InvariantViolated("an Attempt counter is exhausted".to_string()),
            );
        }
        proof {
            lemma_max_ordinal_bounds(self.attempts@, creation.run_id@);
        }
        let ordinal: i64 = base + 1;
        let ghost before = *self;
        // 6. Commit the lineage.
        let attempt = AttemptRecord {
            id: creation.attempt_id.to_owned(),
            run_id: creation.run_id.to_owned(),
            ordinal,
            launch_key: creation.launch_key.to_owned(),
        };
        let status = AttemptStatusRow {
            attempt_id: creation.attempt_id.to_owned(),
            run_id: creation.run_id.to_owned(),
            observed_execution: Observation::Absent,
            terminal: false,
            revision: 1,
            launch_contact_state: LaunchContactState::NotContacted,
            launch_contact_initiated_at: None,
            launch_contact_epoch: None,
            started_at: None,
            finished_at: None,
        };
        let session = SessionRow {
            id: creation.session_id.to_owned(),
            attempt_id: creation.attempt_id.to_owned(),
            restore_generation: self.restore_generation.clone(),
            credential_revision: 1,
            credential_hash: vstd::slice::slice_to_vec(creation.credential_verifier.as_slice()),
            state: SessionState::Active,
            revocation_reason: None,
            credential_rekeyed_at: None,
            revoked_at: None,
        };
        proof {
            lemma_unique_push(self.attempts@, attempt_key(), attempt);
            lemma_unique_push(self.attempts@, launch_key_key(), attempt);
            lemma_unique_push(self.attempt_status@, status_key(), status);
            lemma_unique_push(self.sessions@, session_key(), session);
            lemma_unique_push(self.sessions@, session_id_key(), session);
        }
        self.attempts.push(attempt);
        self.attempt_status.push(status);
        self.sessions.push(session);
        let old_run = &self.run_status[ri];
        let new_run = RunStatusRow {
            run_id: old_run.run_id.clone(),
            task_id: old_run.task_id.clone(),
            phase: old_run.phase,
            terminal_target: old_run.terminal_target,
            revision: current_revision + 1,
            active_slot: old_run.active_slot,
            current_attempt_id: Some(creation.attempt_id.to_owned()),
        };
        proof {
            lemma_unique_update(self.run_status@, run_key(), ri as int, new_run);
        }
        self.run_status.set(ri, new_run);
        let value = AttemptCreated {
            attempt_id: creation.attempt_id.to_owned(),
            run_id: creation.run_id.to_owned(),
            ordinal,
            launch_key: creation.launch_key.to_owned(),
            session_id: creation.session_id.to_owned(),
            restore_generation: self.restore_generation.clone(),
        };
        proof {
            assert(self.attempts@.drop_last() =~= before.attempts@);
            assert(self.attempt_status@.drop_last() =~= before.attempt_status@);
            assert(self.sessions@.drop_last() =~= before.sessions@);
            let st = self.attempt_status@;
            assert forall|i: int, j: int|
                0 <= i < st.len() && 0 <= j < st.len() && i != j && !(#[trigger] st[i]).terminal
                    && !(#[trigger] st[j]).terminal implies st[i].run_id@ != st[j].run_id@ by {
                let last = st.len() - 1;
                if i == last {
                    assert(st[j] == before.attempt_status@[j]);
                } else if j == last {
                    assert(st[i] == before.attempt_status@[i]);
                } else {
                    assert(st[i] == before.attempt_status@[i]);
                    assert(st[j] == before.attempt_status@[j]);
                }
            }
            assert forall|i: int| 0 <= i < st.len() implies status_row_wf(#[trigger] st[i]) by {
                if i < st.len() - 1 {
                    assert(st[i] == before.attempt_status@[i]);
                }
            }
            assert forall|i: int| 0 <= i < self.sessions@.len() implies (#[trigger] self.sessions@[i]).credential_revision >= 1 by {
                if i < self.sessions@.len() - 1 {
                    assert(self.sessions@[i] == before.sessions@[i]);
                }
            }
            let rs = self.run_status@;
            assert forall|i: int| 0 <= i < rs.len() implies run_row_wf(#[trigger] rs[i]) by {
                if i != ri {
                    assert(rs[i] == before.run_status@[i]);
                }
            }
            assert forall|i: int, j: int|
                0 <= i < rs.len() && 0 <= j < rs.len() && i != j && #[trigger] rs[i].active_slot implies !#[trigger] rs[j].active_slot by {
                assert(rs[i].active_slot == before.run_status@[i].active_slot);
                assert(rs[j].active_slot == before.run_status@[j].active_slot);
            }
        }
        Ok(value)
    }
}

} // verus!

verus! {

// ---- Credential rekey (T4a) ---------------------------------------------

/// Whether the Attempt is its Run's current one under an Active Run.
pub open spec fn attempt_is_current(s: Store, attempt_id: Seq<char>) -> bool {
    let ai = find_last(s.attempts@, attempt_key(), attempt_id);
    ai >= 0 && {
        let ri = find_last(s.run_status@, run_key(), s.attempts@[ai].run_id@);
        &&& ri >= 0
        &&& s.run_status@[ri].phase is Active
        &&& s.run_status@[ri].current_attempt_id matches Some(cur)
        &&& cur@ == attempt_id
    }
}

/// Whether the Attempt's session is ACTIVE in the current RestoreGeneration.
pub open spec fn session_is_current(s: Store, attempt_id: Seq<char>) -> bool {
    let se = find_last(s.sessions@, session_key(), attempt_id);
    &&& se >= 0
    &&& s.sessions@[se].state is Active
    &&& s.sessions@[se].restore_generation@ == s.restore_generation@
}

/// Why a rekey refuses, or that it may commit.
pub enum RekeyDecision {
    /// A precondition of the pre-contact rekey fails.
    Forbidden,
    /// The expected credential revision is not the current one.
    Stale(i64),
    /// A counter the rekey advances has no room left.
    Exhausted,
    /// Every precondition holds.
    Admitted,
}

/// The decision a rekey of `attempt_id` at `expected` reaches on `s`: the
/// Attempt must exist, be nonterminal and durably `NOT_CONTACTED`, own a
/// current-generation ACTIVE session, and be its Active Run's current one.
pub open spec fn rekey_decision(s: Store, attempt_id: Seq<char>, expected: i64) -> RekeyDecision {
    let si = find_last(s.attempt_status@, status_key(), attempt_id);
    let se = find_last(s.sessions@, session_key(), attempt_id);
    if si < 0 || s.attempt_status@[si].terminal || !(
    s.attempt_status@[si].launch_contact_state is NotContacted) {
        RekeyDecision::Forbidden
    } else if !session_is_current(s, attempt_id) {
        RekeyDecision::Forbidden
    } else if !attempt_is_current(s, attempt_id) {
        RekeyDecision::Forbidden
    } else if s.sessions@[se].credential_revision != expected {
        RekeyDecision::Stale(s.sessions@[se].credential_revision)
    } else if expected >= i64::MAX || s.next_sequence >= i64::MAX {
        RekeyDecision::Exhausted
    } else {
        RekeyDecision::Admitted
    }
}

/// The rekey's effect apart from its Event: only the session's credential
/// revision and verifier change.
pub open spec fn session_rekeyed(before: Store, after: Store, attempt_id: Seq<char>, verifier: Seq<u8>) -> bool {
    let se = find_last(before.sessions@, session_key(), attempt_id);
    let old_row = before.sessions@[se];
    let new_row = after.sessions@[se];
    &&& after.sessions@.len() == before.sessions@.len()
    &&& forall|j: int| 0 <= j < before.sessions@.len() && j != se ==> after.sessions@[j] == before.sessions@[j]
    &&& new_row.id == old_row.id && new_row.attempt_id == old_row.attempt_id
    &&& new_row.restore_generation == old_row.restore_generation
    &&& new_row.state == old_row.state && new_row.revocation_reason == old_row.revocation_reason
    &&& new_row.revoked_at == old_row.revoked_at
    &&& new_row.credential_rekeyed_at is Some
    &&& new_row.credential_revision == old_row.credential_revision + 1
    &&& new_row.credential_hash@ == verifier
}

fn rekey_forbidden(attempt_id: &str, detail: &str) -> (e: StoreError)
    ensures
        e matches StoreError::AgentControlRekeyForbidden { attempt_id: a, .. } && a@ == attempt_id@,
{
    StoreError::AgentControlRekeyForbidden { attempt_id: attempt_id.to_owned(), detail: detail.to_owned() }
}

impl Store {
    /// Whether the Attempt is its Run's current one under an Active Run.
    fn check_attempt_current(&self, attempt_id: &str) -> (r: bool)
        requires
            self.wf(),
        ensures
            r == attempt_is_current(*self, attempt_id@),
    {
        let ai: usize = match find_attempt(&self.attempts, attempt_id) {
            Some(i) => i,
            None => return false,
        };
        let ri: usize = match find_run(&self.run_status, self.attempts[ai].run_id.as_str()) {
            Some(i) => i,
            None => return false,
        };
        if self.run_status[ri].phase != RunPhase::Active {
            return false;
        }
        match &self.run_status[ri].current_attempt_id {
            Some(cur) => str_eq(cur.as_str(), attempt_id),
            None => false,
        }
    }

    /// Whether the Attempt's session is ACTIVE in the current generation.
    fn check_session_current(&self, attempt_id: &str) -> (r: bool)
        requires
            self.wf(),
        ensures
            r == session_is_current(*self, attempt_id@),
    {
        match find_session(&self.sessions, attempt_id) {
            Some(se) => self.sessions[se].state == SessionState::Active && str_eq(
                self.sessions[se].restore_generation.as_str(),
                self.restore_generation.as_str(),
            ),
            None => false,
        }
    }

    /// Recovers a lost pre-contact bearer by rotating the same session's
    /// verifier (T4a): permitted only while the Attempt is current,
    /// nonterminal and durably `NOT_CONTACTED` and its session is ACTIVE in
    /// the current generation at the expected credential revision. Returns
    /// the new credential revision. Never touches the Attempt, its LaunchKey,
    /// the session identity or its generation; nothing is written on failure.
    pub fn rekey_agent_control_session(
        &mut self,
        attempt_id: &str,
        new_verifier: &[u8; 32],
        expected_credential_revision: i64,
    ) -> (r: Result<i64, StoreError>)
        requires
            old(self).wf(),
        ensures
            final(self).wf(),
            match rekey_decision(*old(self), attempt_id@, expected_credential_revision) {
                RekeyDecision::Forbidden => (r matches Err(StoreError::AgentControlRekeyForbidden { attempt_id: a, .. })
                    && a@ == attempt_id@ && *final(self) == *old(self)),
                RekeyDecision::Stale(actual) => (r matches Err(StoreError::RevisionConflict { table, id, expected, actual: got })
                    && table@ == "agent_control_sessions"@ && id@ == attempt_id@
                    && expected == expected_credential_revision && got == Some(actual)
                    && *final(self) == *old(self)),
                RekeyDecision::Exhausted => (r matches Err(StoreError::InvariantViolated(_)) && *final(self) == *old(self)),
                RekeyDecision::Admitted => {
                    &&& r == Ok::<i64, StoreError>((expected_credential_revision + 1) as i64)
                    &&& session_rekeyed(*old(self), *final(self), attempt_id@, new_verifier@)
                    &&& crate::command::event_appended(*old(self), *final(self), "agent-control.session.rekeyed"@, None)
                    &&& (Store {
                        sessions: old(self).sessions,
                        events: old(self).events,
                        next_sequence: old(self).next_sequence,
                        ..*final(self)
                    }) == *old(self)
                },
            },
    {
        let si: usize = match find_status(&self.attempt_status, attempt_id) {
            Some(i) => i,
            None => return Err(rekey_forbidden(attempt_id, "the Attempt does not exist")),
        };
        if self.attempt_status[si].terminal {
            return Err(rekey_forbidden(attempt_id, "the Attempt is terminal"));
        }
        if self.attempt_status[si].launch_contact_state != LaunchContactState::NotContacted {
            return Err(
                rekey_forbidden(attempt_id, "launch contact may have occurred; the credential revision is frozen"),
            );
        }
        if !self.check_session_current(attempt_id) {
            return Err(
                rekey_forbidden(attempt_id, "the session is not ACTIVE in the current RestoreGeneration"),
            );
        }
        if !self.check_attempt_current(attempt_id) {
            return Err(
                rekey_forbidden(attempt_id, "the Attempt is no longer the Run's current one under an Active Run"),
            );
        }
        let se: usize = find_session(&self.sessions, attempt_id).unwrap();
        let current: i64 = self.sessions[se].credential_revision;
        if current != expected_credential_revision {
            return Err(
                StoreError::RevisionConflict {
                    table: "agent_control_sessions",
                    id: attempt_id.to_owned(),
                    expected: expected_credential_revision,
                    actual: Some(current),
                },
            );
        }
        if expected_credential_revision >= i64::MAX || self.next_sequence >= i64::MAX {
            return Err(StoreError::InvariantViolated("a session counter is exhausted".to_string()));
        }
        let ghost before = *self;
        let rekeyed_at: i64 = crate::clock::unix_now();
        let old_row = &self.sessions[se];
        let new_row = SessionRow {
            id: old_row.id.clone(),
            attempt_id: old_row.attempt_id.clone(),
            restore_generation: old_row.restore_generation.clone(),
            credential_revision: current + 1,
            credential_hash: vstd::slice::slice_to_vec(new_verifier.as_slice()),
            state: old_row.state,
            revocation_reason: copy_text_option(&old_row.revocation_reason),
            credential_rekeyed_at: Some(rekeyed_at),
            revoked_at: old_row.revoked_at,
        };
        proof {
            lemma_unique_update(self.sessions@, session_key(), se as int, new_row);
            lemma_unique_update(self.sessions@, session_id_key(), se as int, new_row);
        }
        self.sessions.set(se, new_row);
        proof {
            assert forall|i: int| 0 <= i < self.sessions@.len() implies (#[trigger] self.sessions@[i]).credential_revision >= 1 by {
                if i != se {
                    assert(self.sessions@[i] == before.sessions@[i]);
                }
            }
            assert(self.wf());
        }
        let ghost mid = *self;
        self.append_internal_event("agent-control.session.rekeyed");
        proof {
            assert(self.sessions == mid.sessions);
        }
        Ok(current + 1)
    }
}

// ---- Launch contact (T4b) ------------------------------------------------

/// Why crossing the launch-contact boundary refuses, or what it does.
pub enum ContactDecision {
    /// The Attempt, its Run or its session no longer carries authority.
    StaleAuthority,
    /// The boundary was already crossed: a retry reconciles.
    AlreadyCrossed,
    /// The status row moved since the caller observed it.
    Stale(i64),
    /// A counter the crossing advances has no room left.
    Exhausted,
    /// Every precondition holds.
    Admitted,
}

/// The decision marking launch contact reaches on `s`.
pub open spec fn contact_decision(
    s: Store,
    run_id: Seq<char>,
    attempt_id: Seq<char>,
    expected_status_revision: i64,
    expected_credential_revision: i64,
) -> ContactDecision {
    let si = find_last(s.attempt_status@, status_key(), attempt_id);
    let st = s.attempt_status@[si];
    let ri = find_last(s.run_status@, run_key(), run_id);
    let se = find_last(s.sessions@, session_key(), attempt_id);
    if si < 0 || st.run_id@ != run_id || st.terminal {
        ContactDecision::StaleAuthority
    } else if st.launch_contact_state is ContactMayHaveOccurred {
        ContactDecision::AlreadyCrossed
    } else if !(ri >= 0 && s.run_status@[ri].phase is Active && (s.run_status@[ri].current_attempt_id matches Some(cur)
        && cur@ == attempt_id)) {
        ContactDecision::StaleAuthority
    } else if !session_is_current(s, attempt_id) || s.sessions@[se].credential_revision
        != expected_credential_revision {
        ContactDecision::StaleAuthority
    } else if st.revision != expected_status_revision {
        ContactDecision::Stale(st.revision)
    } else if st.revision >= i64::MAX || s.next_sequence >= i64::MAX {
        ContactDecision::Exhausted
    } else {
        ContactDecision::Admitted
    }
}

/// The crossing's effect on the Attempt's status row: contact may have
/// occurred, stamped with its time and the controller epoch, under a new
/// revision.
pub open spec fn contact_marked(before: Store, after: Store, attempt_id: Seq<char>, controller_epoch: Seq<char>) -> bool {
    let si = find_last(before.attempt_status@, status_key(), attempt_id);
    let o = before.attempt_status@[si];
    let n = after.attempt_status@[si];
    &&& after.attempt_status@.len() == before.attempt_status@.len()
    &&& forall|j: int| 0 <= j < before.attempt_status@.len() && j != si ==> after.attempt_status@[j] == before.attempt_status@[j]
    &&& n.attempt_id == o.attempt_id && n.run_id == o.run_id
    &&& n.observed_execution == o.observed_execution && n.terminal == o.terminal
    &&& n.started_at == o.started_at && n.finished_at == o.finished_at
    &&& n.revision == o.revision + 1
    &&& n.launch_contact_state is ContactMayHaveOccurred
    &&& n.launch_contact_initiated_at is Some
    &&& n.launch_contact_epoch matches Some(e) && e@ == controller_epoch
}

fn contact_stale(attempt_id: &str, detail: &str) -> (e: StoreError)
    ensures
        e matches StoreError::LaunchContactStaleAuthority { attempt_id: a, .. } && a@ == attempt_id@,
{
    StoreError::LaunchContactStaleAuthority { attempt_id: attempt_id.to_owned(), detail: detail.to_owned() }
}

impl Store {
    /// Commits the durable launch-contact marker (T4b),
    /// `NOT_CONTACTED -> CONTACT_MAY_HAVE_OCCURRED`, before any external
    /// contact: the Attempt must be current and nonterminal under an Active
    /// Run, its session ACTIVE in the current generation at exactly the
    /// expected credential revision. Finding the marker already crossed is
    /// the committed outcome of a lost response, not an error.
    pub fn mark_launch_contact(
        &mut self,
        run_id: &str,
        attempt_id: &str,
        controller_epoch: &str,
        expected_status_revision: Revision,
        expected_credential_revision: i64,
    ) -> (r: Result<(), StoreError>)
        requires
            old(self).wf(),
        ensures
            final(self).wf(),
            match contact_decision(*old(self), run_id@, attempt_id@, expected_status_revision.value, expected_credential_revision) {
                ContactDecision::StaleAuthority => (r matches Err(StoreError::LaunchContactStaleAuthority { attempt_id: a, .. })
                    && a@ == attempt_id@ && *final(self) == *old(self)),
                ContactDecision::AlreadyCrossed => r is Ok && *final(self) == *old(self),
                ContactDecision::Stale(actual) => (r matches Err(StoreError::RevisionConflict { table, id, expected, actual: got })
                    && table@ == "attempt_status"@ && id@ == attempt_id@
                    && expected == expected_status_revision.value && got == Some(actual)
                    && *final(self) == *old(self)),
                ContactDecision::Exhausted => (r matches Err(StoreError::InvariantViolated(_)) && *final(self) == *old(self)),
                ContactDecision::Admitted => {
                    &&& r is Ok
                    &&& contact_marked(*old(self), *final(self), attempt_id@, controller_epoch@)
                    &&& crate::command::event_appended(*old(self), *final(self), "run.attempt.contact-initiated"@, None)
                    &&& (Store {
                        attempt_status: old(self).attempt_status,
                        events: old(self).events,
                        next_sequence: old(self).next_sequence,
                        ..*final(self)
                    }) == *old(self)
                },
            },
    {
        let si: usize = match find_status(&self.attempt_status, attempt_id) {
            Some(i) => i,
            None => return Err(contact_stale(attempt_id, "the Attempt is absent, foreign to the Run, or terminal")),
        };
        if !str_eq(self.attempt_status[si].run_id.as_str(), run_id) || self.attempt_status[si].terminal {
            return Err(contact_stale(attempt_id, "the Attempt is absent, foreign to the Run, or terminal"));
        }
        // Lost-response reconciliation: the boundary already committed.
        if self.attempt_status[si].launch_contact_state == LaunchContactState::ContactMayHaveOccurred {
            return Ok(());
        }
        let current_run: bool = match find_run(&self.run_status, run_id) {
            Some(ri) => self.run_status[ri].phase == RunPhase::Active && match &self.run_status[ri].current_attempt_id {
                Some(cur) => str_eq(cur.as_str(), attempt_id),
                None => false,
            },
            None => false,
        };
        if !current_run {
            return Err(
                contact_stale(attempt_id, "the Attempt is no longer the Run's current one under an Active Run"),
            );
        }
        if !self.check_session_current(attempt_id) {
            return Err(contact_stale(attempt_id, "no current-generation ACTIVE session exists"));
        }
        let se: usize = find_session(&self.sessions, attempt_id).unwrap();
        if self.sessions[se].credential_revision != expected_credential_revision {
            return Err(contact_stale(attempt_id, "the session credential revision is not the expected one"));
        }
        let current: i64 = self.attempt_status[si].revision;
        if current != expected_status_revision.value {
            return Err(
                StoreError::RevisionConflict {
                    table: "attempt_status",
                    id: attempt_id.to_owned(),
                    expected: expected_status_revision.value,
                    actual: Some(current),
                },
            );
        }
        if current >= i64::MAX || self.next_sequence >= i64::MAX {
            return Err(StoreError::InvariantViolated("an Attempt counter is exhausted".to_string()));
        }
        let ghost before = *self;
        let now: i64 = crate::clock::unix_now();
        let o = &self.attempt_status[si];
        let new_row = AttemptStatusRow {
            attempt_id: o.attempt_id.clone(),
            run_id: o.run_id.clone(),
            observed_execution: o.observed_execution,
            terminal: o.terminal,
            revision: current + 1,
            launch_contact_state: LaunchContactState::ContactMayHaveOccurred,
            launch_contact_initiated_at: Some(now),
            launch_contact_epoch: Some(controller_epoch.to_owned()),
            started_at: o.started_at,
            finished_at: o.finished_at,
        };
        proof {
            lemma_unique_update(self.attempt_status@, status_key(), si as int, new_row);
        }
        self.attempt_status.set(si, new_row);
        proof {
            let st = self.attempt_status@;
            assert forall|i: int| 0 <= i < st.len() implies status_row_wf(#[trigger] st[i]) by {
                if i != si {
                    assert(st[i] == before.attempt_status@[i]);
                }
            }
            assert forall|i: int, j: int|
                0 <= i < st.len() && 0 <= j < st.len() && i != j && !(#[trigger] st[i]).terminal
                    && !(#[trigger] st[j]).terminal implies st[i].run_id@ != st[j].run_id@ by {
                assert(st[i].terminal == before.attempt_status@[i].terminal);
                assert(st[j].terminal == before.attempt_status@[j].terminal);
                assert(st[i].run_id == before.attempt_status@[i].run_id);
                assert(st[j].run_id == before.attempt_status@[j].run_id);
            }
            assert(self.wf());
        }
        let ghost mid = *self;
        self.append_internal_event("run.attempt.contact-initiated");
        proof {
            assert(self.attempt_status == mid.attempt_status);
        }
        Ok(())
    }
}

} // verus!

verus! {

// ---- Observation recording ----------------------------------------------

/// Why recording an observation refuses, or that it may commit.
pub enum ObservationDecision {
    /// `EXITED` is definitive and can only arrive as a terminal update.
    ExitedNotTerminal,
    /// A terminal update while launch contact is not durably proven.
    ContactNotProven,
    /// The status row is missing (`None`) or has moved (`Some`).
    Stale(Option<i64>),
    /// A counter the update advances has no room left.
    Exhausted,
    /// Every precondition holds.
    Admitted,
}

/// The decision recording `update` for `attempt_id` at `expected` reaches.
pub open spec fn observation_decision(s: Store, attempt_id: Seq<char>, expected: i64, update: ObservationUpdate) -> ObservationDecision {
    let si = find_last(s.attempt_status@, status_key(), attempt_id);
    match update {
        ObservationUpdate::Observe(o) => {
            if o is Exited {
                ObservationDecision::ExitedNotTerminal
            } else if si < 0 {
                ObservationDecision::Stale(None)
            } else if s.attempt_status@[si].revision != expected {
                ObservationDecision::Stale(Some(s.attempt_status@[si].revision))
            } else if expected >= i64::MAX {
                ObservationDecision::Exhausted
            } else {
                ObservationDecision::Admitted
            }
        },
        ObservationUpdate::Terminal(_) => {
            if si < 0 || s.attempt_status@[si].launch_contact_state is NotContacted {
                ObservationDecision::ContactNotProven
            } else if s.attempt_status@[si].revision != expected {
                ObservationDecision::Stale(Some(s.attempt_status@[si].revision))
            } else if expected >= i64::MAX || s.next_sequence >= i64::MAX {
                ObservationDecision::Exhausted
            } else {
                ObservationDecision::Admitted
            }
        },
    }
}

/// An admitted observation's effect on the status row: the observation is
/// recorded under a new revision; a first sighting alive stamps `started_at`
/// once; a terminal update ends the Attempt and stamps `finished_at`.
pub open spec fn observation_recorded(before: Store, after: Store, attempt_id: Seq<char>, update: ObservationUpdate) -> bool {
    let si = find_last(before.attempt_status@, status_key(), attempt_id);
    let o = before.attempt_status@[si];
    let n = after.attempt_status@[si];
    &&& after.attempt_status@.len() == before.attempt_status@.len()
    &&& forall|j: int| 0 <= j < before.attempt_status@.len() && j != si ==> after.attempt_status@[j] == before.attempt_status@[j]
    &&& n.attempt_id == o.attempt_id && n.run_id == o.run_id
    &&& n.launch_contact_state == o.launch_contact_state
    &&& n.launch_contact_initiated_at == o.launch_contact_initiated_at
    &&& n.launch_contact_epoch == o.launch_contact_epoch
    &&& n.revision == o.revision + 1
    &&& match update {
        ObservationUpdate::Observe(obs) => {
            &&& n.observed_execution == obs
            &&& n.terminal == o.terminal
            &&& n.finished_at == o.finished_at
            &&& if (obs is Starting || obs is Running) && o.started_at is None {
                n.started_at is Some
            } else {
                n.started_at == o.started_at
            }
        },
        ObservationUpdate::Terminal(obs) => {
            &&& n.observed_execution == obs
            &&& n.terminal
            &&& n.finished_at is Some
            &&& n.started_at == o.started_at
        },
    }
}

/// A terminal update's effect on the Attempt's session: an ACTIVE session
/// is revoked at a recorded time, keeping any earlier reason and otherwise
/// recording `attempt-terminal`; anything else is untouched.
pub open spec fn session_revoked(before: Store, after: Store, attempt_id: Seq<char>) -> bool {
    let se = find_last(before.sessions@, session_key(), attempt_id);
    &&& after.sessions@.len() == before.sessions@.len()
    &&& forall|j: int| 0 <= j < before.sessions@.len() && j != se ==> after.sessions@[j] == before.sessions@[j]
    &&& se >= 0 ==> {
        let o = before.sessions@[se];
        let n = after.sessions@[se];
        &&& n.id == o.id && n.attempt_id == o.attempt_id
        &&& n.restore_generation == o.restore_generation
        &&& n.credential_revision == o.credential_revision
        &&& n.credential_hash@ == o.credential_hash@
        &&& n.state is Revoked
        &&& if o.state is Active {
            &&& n.revocation_reason matches Some(x) && x@ == (match o.revocation_reason {
                Some(r) => r@,
                None => "attempt-terminal"@,
            })
            &&& n.credential_rekeyed_at == o.credential_rekeyed_at
            &&& n.revoked_at is Some
        } else {
            n == o
        }
    }
}

impl Store {
    /// Records a normalized execution observation for one Attempt.
    ///
    /// A factual observation updates the status under CAS and stamps
    /// `started_at` the first time the lineage is seen alive. A terminal
    /// update is refused unless launch contact is durably proven; it ends the
    /// Attempt, stamps `finished_at`, revokes its session and appends the
    /// Event. Returns the status row's new revision.
    pub fn record_execution_observation(
        &mut self,
        attempt_id: &str,
        expected_status_revision: Revision,
        update: ObservationUpdate,
    ) -> (r: Result<Revision, StoreError>)
        requires
            old(self).wf(),
        ensures
            final(self).wf(),
            match observation_decision(*old(self), attempt_id@, expected_status_revision.value, update) {
                ObservationDecision::ExitedNotTerminal => (r matches Err(StoreError::InvariantViolated(_))
                    && *final(self) == *old(self)),
                ObservationDecision::ContactNotProven => (r matches Err(StoreError::InvariantViolated(_))
                    && *final(self) == *old(self)),
                ObservationDecision::Stale(actual) => (r matches Err(StoreError::RevisionConflict { table, id, expected, actual: got })
                    && table@ == "attempt_status"@ && id@ == attempt_id@
                    && expected == expected_status_revision.value && got == actual
                    && *final(self) == *old(self)),
                ObservationDecision::Exhausted => (r matches Err(StoreError::InvariantViolated(_)) && *final(self) == *old(self)),
                ObservationDecision::Admitted => {
                    &&& r matches Ok(rev) && rev.value == expected_status_revision.value + 1
                    &&& observation_recorded(*old(self), *final(self), attempt_id@, update)
                    &&& match update {
                        ObservationUpdate::Observe(_) => (Store { attempt_status: old(self).attempt_status, ..*final(self) }) == *old(self),
                        ObservationUpdate::Terminal(_) => {
                            &&& session_revoked(*old(self), *final(self), attempt_id@)
                            &&& crate::command::event_appended(*old(self), *final(self), "run.attempt.terminal"@, None)
                            &&& (Store {
                                attempt_status: old(self).attempt_status,
                                sessions: old(self).sessions,
                                events: old(self).events,
                                next_sequence: old(self).next_sequence,
                                ..*final(self)
                            }) == *old(self)
                        },
                    }
                },
            },
    {
        let terminal: bool = match update {
            ObservationUpdate::Observe(_) => false,
            ObservationUpdate::Terminal(_) => true,
        };
        let observation: Observation = match update {
            ObservationUpdate::Observe(o) => o,
            ObservationUpdate::Terminal(o) => o,
        };
        if !terminal && observation == Observation::Exited {
            return Err(StoreError::InvariantViolated("EXITED is definitive; use the terminal update".to_string()));
        }
        let found: Option<usize> = find_status(&self.attempt_status, attempt_id);
        if terminal {
            let proven: bool = match found {
                Some(si) => self.attempt_status[si].launch_contact_state == LaunchContactState::ContactMayHaveOccurred,
                None => false,
            };
            if !proven {
                return Err(
                    StoreError::InvariantViolated(
                        "an Attempt cannot terminalize while launch contact is not proven".to_string(),
                    ),
                );
            }
        }
        let si: usize = match found {
            Some(i) => i,
            None => {
                return Err(
                    StoreError::RevisionConflict {
                        table: "attempt_status",
                        id: attempt_id.to_owned(),
                        expected: expected_status_revision.value,
                        actual: None,
                    },
                );
            },
        };
        let current: i64 = self.attempt_status[si].revision;
        if current != expected_status_revision.value {
            return Err(
                StoreError::RevisionConflict {
                    table: "attempt_status",
                    id: attempt_id.to_owned(),
                    expected: expected_status_revision.value,
                    actual: Some(current),
                },
            );
        }
        if current >= i64::MAX || (terminal && self.next_sequence >= i64::MAX) {
            return Err(StoreError::InvariantViolated("an Attempt counter is exhausted".to_string()));
        }
        let ghost before = *self;
        let now: i64 = crate::clock::unix_now();
        let o = &self.attempt_status[si];
        let alive: bool = observation == Observation::Starting || observation == Observation::Running;
        let new_row = AttemptStatusRow {
            attempt_id: o.attempt_id.clone(),
            run_id: o.run_id.clone(),
            observed_execution: observation,
            terminal: if terminal {
                true
            } else {
                o.terminal
            },
            revision: current + 1,
            launch_contact_state: o.launch_contact_state,
            launch_contact_initiated_at: o.launch_contact_initiated_at,
            launch_contact_epoch: copy_text_option(&o.launch_contact_epoch),
            started_at: if !terminal && alive && o.started_at.is_none() {
                Some(now)
            } else {
                o.started_at
            },
            finished_at: if terminal {
                Some(now)
            } else {
                o.finished_at
            },
        };
        proof {
            lemma_unique_update(self.attempt_status@, status_key(), si as int, new_row);
        }
        self.attempt_status.set(si, new_row);
        proof {
            let st = self.attempt_status@;
            assert forall|i: int| 0 <= i < st.len() implies status_row_wf(#[trigger] st[i]) by {
                if i != si {
                    assert(st[i] == before.attempt_status@[i]);
                }
            }
            assert forall|i: int, j: int|
                0 <= i < st.len() && 0 <= j < st.len() && i != j && !(#[trigger] st[i]).terminal
                    && !(#[trigger] st[j]).terminal implies st[i].run_id@ != st[j].run_id@ by {
                assert(!before.attempt_status@[i].terminal);
                assert(!before.attempt_status@[j].terminal);
                assert(st[i].run_id == before.attempt_status@[i].run_id);
                assert(st[j].run_id == before.attempt_status@[j].run_id);
            }
            assert(self.wf());
        }
        if terminal {
            let ghost mid = *self;
            match find_session(&self.sessions, attempt_id) {
                Some(se) => {
                    if self.sessions[se].state == SessionState::Active {
                        let s = &self.sessions[se];
                        let reason: Option<String> = match &s.revocation_reason {
                            Some(existing) => Some(existing.clone()),
                            None => Some("attempt-terminal".to_string()),
                        };
                        let revoked = SessionRow {
                            id: s.id.clone(),
                            attempt_id: s.attempt_id.clone(),
                            restore_generation: s.restore_generation.clone(),
                            credential_revision: s.credential_revision,
                            credential_hash: s.credential_hash.clone(),
                            state: SessionState::Revoked,
                            revocation_reason: reason,
                            credential_rekeyed_at: s.credential_rekeyed_at,
                            revoked_at: Some(now),
                        };
                        proof {
                            lemma_unique_update(self.sessions@, session_key(), se as int, revoked);
                            lemma_unique_update(self.sessions@, session_id_key(), se as int, revoked);
                        }
                        self.sessions.set(se, revoked);
                        proof {
                            assert forall|i: int| 0 <= i < self.sessions@.len() implies (#[trigger] self.sessions@[i]).credential_revision >= 1 by {
                                if i != se {
                                    assert(self.sessions@[i] == mid.sessions@[i]);
                                }
                            }
                        }
                    }
                },
                None => {},
            }
            proof {
                assert(self.wf());
            }
            let ghost mid2 = *self;
            self.append_internal_event("run.attempt.terminal");
            proof {
                assert(self.sessions == mid2.sessions);
                assert(self.attempt_status == mid2.attempt_status);
            }
        }
        Ok(Revision { value: current + 1 })
    }
}

// ---- Run conclusion ---------------------------------------------------

/// The terminal phase a conclusion spelling names, when it is one a Run may
/// conclude to directly: `Failed` or `Cancelled`, never `Completed`, which
/// requires a Candidate.
pub open spec fn conclusion_target(text: Seq<char>) -> Option<RunPhase> {
    if text == "Failed"@ {
        Some(RunPhase::Failed)
    } else if text == "Cancelled"@ {
        Some(RunPhase::Cancelled)
    } else {
        None
    }
}

fn parse_conclusion(text: &str) -> (r: Option<RunPhase>)
    ensures
        r == conclusion_target(text@),
{
    if str_eq(text, "Failed") {
        Some(RunPhase::Failed)
    } else if str_eq(text, "Cancelled") {
        Some(RunPhase::Cancelled)
    } else {
        None
    }
}

/// What concluding a Run owes: a conclusion that is neither `Failed` nor
/// `Cancelled`, a missing or moved Run, or an exhausted counter is refused
/// with nothing written; otherwise the Run takes the named terminal phase
/// as its phase and durable target, releases the slot, and one Event is
/// appended.
pub open spec fn conclusion_contract(
    before: Store,
    after: Store,
    run_id: &str,
    terminal_target: &str,
    expected_run_status_revision: Revision,
    r: Result<(), StoreError>,
) -> bool {
    &&& ({
                let ri = find_last(before.run_status@, run_key(), run_id@);
                if conclusion_target(terminal_target@) is None {
                    r matches Err(StoreError::InvariantViolated(_)) && after == before
                } else if ri < 0 {
                    (r matches Err(StoreError::RevisionConflict { table, id, expected, actual })
                        && table@ == "run_status"@ && id@ == run_id@
                        && expected == expected_run_status_revision.value && actual is None
                        && after == before)
                } else if before.run_status@[ri].revision != expected_run_status_revision.value {
                    (r matches Err(StoreError::RevisionConflict { table, id, expected, actual })
                        && table@ == "run_status"@ && id@ == run_id@
                        && expected == expected_run_status_revision.value
                        && actual == Some(before.run_status@[ri].revision)
                        && after == before)
                } else if expected_run_status_revision.value >= i64::MAX || before.next_sequence >= i64::MAX {
                    r matches Err(StoreError::InvariantViolated(_)) && after == before
                } else {
                    let target = conclusion_target(terminal_target@)->0;
                    let o = before.run_status@[ri];
                    let n = after.run_status@[ri];
                    &&& r is Ok
                    &&& after.run_status@.len() == before.run_status@.len()
                    &&& forall|j: int| 0 <= j < before.run_status@.len() && j != ri ==> after.run_status@[j] == before.run_status@[j]
                    &&& n.run_id == o.run_id && n.task_id == o.task_id
                    &&& n.current_attempt_id == o.current_attempt_id
                    &&& n.phase == target && n.terminal_target == Some(target)
                    &&& !n.active_slot
                    &&& n.revision == o.revision + 1
                    &&& crate::command::event_appended(before, after, "run.concluded"@, None)
                    &&& (Store {
                        run_status: before.run_status,
                        events: before.events,
                        next_sequence: before.next_sequence,
                        ..after
                    }) == before
                }
            })
}

impl Store {
    /// Concludes a Run that produced no usable execution: moves it to the
    /// terminal `Failed` or `Cancelled` phase with that durable target,
    /// releasing the global execution slot, under CAS, with its Event.
    pub fn conclude_run(&mut self, run_id: &str, terminal_target: &str, expected_run_status_revision: Revision) -> (r: Result<(), StoreError>)
        requires
            old(self).wf(),
        ensures
            final(self).wf(),
            conclusion_contract(*old(self), *final(self), run_id, terminal_target, expected_run_status_revision, r),
            r is Ok ==> ({
                let ri = find_last(old(self).run_status@, run_key(), run_id@);
                &&& 0 <= ri < final(self).run_status@.len()
                &&& final(self).run_status@[ri].phase.spec_as_str()@ == terminal_target@
                &&& final(self).run_status@[ri].terminal_target == Some(final(self).run_status@[ri].phase)
                &&& !final(self).run_status@[ri].active_slot
            }),
    {
        let r = self.conclude_run_checked(run_id, terminal_target, expected_run_status_revision);
        proof {
            crate::laws::law_a_conclusion_records_the_phase_it_names(*old(self), *self, run_id, terminal_target, expected_run_status_revision, r);
        }
        r
    }

    fn conclude_run_checked(&mut self, run_id: &str, terminal_target: &str, expected_run_status_revision: Revision) -> (r: Result<(), StoreError>)
        requires
            old(self).wf(),
        ensures
            final(self).wf(),
            ({
                let ri = find_last(old(self).run_status@, run_key(), run_id@);
                if conclusion_target(terminal_target@) is None {
                    r matches Err(StoreError::InvariantViolated(_)) && *final(self) == *old(self)
                } else if ri < 0 {
                    (r matches Err(StoreError::RevisionConflict { table, id, expected, actual })
                        && table@ == "run_status"@ && id@ == run_id@
                        && expected == expected_run_status_revision.value && actual is None
                        && *final(self) == *old(self))
                } else if old(self).run_status@[ri].revision != expected_run_status_revision.value {
                    (r matches Err(StoreError::RevisionConflict { table, id, expected, actual })
                        && table@ == "run_status"@ && id@ == run_id@
                        && expected == expected_run_status_revision.value
                        && actual == Some(old(self).run_status@[ri].revision)
                        && *final(self) == *old(self))
                } else if expected_run_status_revision.value >= i64::MAX || old(self).next_sequence >= i64::MAX {
                    r matches Err(StoreError::InvariantViolated(_)) && *final(self) == *old(self)
                } else {
                    let target = conclusion_target(terminal_target@)->0;
                    let o = old(self).run_status@[ri];
                    let n = final(self).run_status@[ri];
                    &&& r is Ok
                    &&& final(self).run_status@.len() == old(self).run_status@.len()
                    &&& forall|j: int| 0 <= j < old(self).run_status@.len() && j != ri ==> final(self).run_status@[j] == old(self).run_status@[j]
                    &&& n.run_id == o.run_id && n.task_id == o.task_id
                    &&& n.current_attempt_id == o.current_attempt_id
                    &&& n.phase == target && n.terminal_target == Some(target)
                    &&& !n.active_slot
                    &&& n.revision == o.revision + 1
                    &&& crate::command::event_appended(*old(self), *final(self), "run.concluded"@, None)
                    &&& (Store {
                        run_status: old(self).run_status,
                        events: old(self).events,
                        next_sequence: old(self).next_sequence,
                        ..*final(self)
                    }) == *old(self)
                }
            }),
    {
        let target: RunPhase = match parse_conclusion(terminal_target) {
            Some(t) => t,
            None => {
                return Err(
                    StoreError::InvariantViolated(
                        "only Failed or Cancelled can conclude a Run directly".to_string(),
                    ),
                );
            },
        };
        let ri: usize = match find_run(&self.run_status, run_id) {
            Some(i) => i,
            None => {
                return Err(
                    StoreError::RevisionConflict {
                        table: "run_status",
                        id: run_id.to_owned(),
                        expected: expected_run_status_revision.value,
                        actual: None,
                    },
                );
            },
        };
        let current: i64 = self.run_status[ri].revision;
        if current != expected_run_status_revision.value {
            return Err(
                StoreError::RevisionConflict {
                    table: "run_status",
                    id: run_id.to_owned(),
                    expected: expected_run_status_revision.value,
                    actual: Some(current),
                },
            );
        }
        if current >= i64::MAX || self.next_sequence >= i64::MAX {
            return Err(StoreError::InvariantViolated("a Run counter is exhausted".to_string()));
        }
        let ghost before = *self;
        let o = &self.run_status[ri];
        let new_row = RunStatusRow {
            run_id: o.run_id.clone(),
            task_id: o.task_id.clone(),
            phase: target,
            terminal_target: Some(target),
            revision: current + 1,
            active_slot: false,
            current_attempt_id: copy_text_option(&o.current_attempt_id),
        };
        proof {
            lemma_unique_update(self.run_status@, run_key(), ri as int, new_row);
        }
        self.run_status.set(ri, new_row);
        proof {
            let rs = self.run_status@;
            assert forall|i: int| 0 <= i < rs.len() implies run_row_wf(#[trigger] rs[i]) by {
                if i != ri {
                    assert(rs[i] == before.run_status@[i]);
                }
            }
            assert forall|i: int, j: int|
                0 <= i < rs.len() && 0 <= j < rs.len() && i != j && #[trigger] rs[i].active_slot implies !#[trigger] rs[j].active_slot by {
                if i != ri && j != ri {
                    assert(rs[i] == before.run_status@[i]);
                    assert(rs[j] == before.run_status@[j]);
                } else if i != ri {
                    assert(rs[i] == before.run_status@[i]);
                } else {
                    assert(rs[j] == before.run_status@[j]);
                }
            }
            assert(self.wf());
        }
        let ghost mid = *self;
        self.append_internal_event("run.concluded");
        proof {
            assert(self.run_status == mid.run_status);
        }
        Ok(())
    }

    /// Every nonterminal Run with its current Attempt pointer. At most one
    /// Run is nonterminal, since exactly the nonterminal Runs hold the single
    /// global execution slot.
    pub fn nonterminal_run_inventory(&self) -> (r: Vec<RunInventoryEntry>)
        requires
            self.wf(),
        ensures
            r@.len() <= 1,
            r@.len() == 1 <==> exists|i: int| 0 <= i < self.run_status@.len() && (#[trigger] self.run_status@[i]).phase.is_nonterminal(),
            forall|k: int| #![trigger r@[k]] 0 <= k < r@.len() ==> exists|i: int| 0 <= i < self.run_status@.len() && {
                let row = #[trigger] self.run_status@[i];
                &&& row.phase.is_nonterminal()
                &&& r@[k].run_id == row.run_id && r@[k].task_id == row.task_id
                &&& r@[k].phase@ == row.phase.as_str()@
                &&& r@[k].revision.value == row.revision
                &&& r@[k].current_attempt_id == row.current_attempt_id
            },
    {
        let mut out: Vec<RunInventoryEntry> = Vec::new();
        let mut i: usize = 0;
        while i < self.run_status.len()
            invariant
                self.wf(),
                i <= self.run_status@.len(),
                out@.len() <= 1,
                out@.len() == 1 <==> exists|j: int| 0 <= j < i && (#[trigger] self.run_status@[j]).phase.is_nonterminal(),
                forall|k: int| #![trigger out@[k]] 0 <= k < out@.len() ==> exists|j: int| 0 <= j < i && {
                    let row = #[trigger] self.run_status@[j];
                    &&& row.phase.is_nonterminal()
                    &&& out@[k].run_id == row.run_id && out@[k].task_id == row.task_id
                    &&& out@[k].phase@ == row.phase.as_str()@
                    &&& out@[k].revision.value == row.revision
                    &&& out@[k].current_attempt_id == row.current_attempt_id
                },
            decreases self.run_status@.len() - i,
        {
            let row = &self.run_status[i];
            if row.phase == RunPhase::Active || row.phase == RunPhase::Finalizing {
                proof {
                    if out@.len() == 1 {
                        let j = choose|j: int| 0 <= j < i && (#[trigger] self.run_status@[j]).phase.is_nonterminal();
                        assert(run_row_wf(self.run_status@[j]));
                        assert(run_row_wf(self.run_status@[i as int]));
                        assert(self.run_status@[j].active_slot);
                        assert(false);
                    }
                }
                let entry = RunInventoryEntry {
                    run_id: row.run_id.clone(),
                    task_id: row.task_id.clone(),
                    phase: row.phase.as_str().to_string(),
                    revision: Revision { value: row.revision },
                    current_attempt_id: copy_text_option(&row.current_attempt_id),
                };
                out.push(entry);
                proof {
                    assert(self.run_status@[i as int].phase.is_nonterminal());
                }
            }
            i = i + 1;
        }
        out
    }

    /// How many Attempts the Run has ever created, terminal or not.
    pub fn attempt_history_count(&self, run_id: &str) -> (r: i64)
        requires
            self.attempts@.len() <= i64::MAX,
        ensures
            r == attempt_count(self.attempts@, run_id@),
    {
        count_attempts(&self.attempts, run_id)
    }

    /// The current revision of one Attempt's status row.
    pub fn attempt_status_revision(&self, attempt_id: &str) -> (r: Result<Revision, StoreError>)
        ensures
            ({
                let si = find_last(self.attempt_status@, status_key(), attempt_id@);
                if si < 0 {
                    r matches Err(StoreError::Storage(_))
                } else {
                    r == Ok::<Revision, StoreError>(Revision { value: self.attempt_status@[si].revision })
                }
            }),
    {
        match find_status(&self.attempt_status, attempt_id) {
            Some(si) => Ok(Revision { value: self.attempt_status[si].revision }),
            None => Err(StoreError::Storage("no attempt_status row exists for the Attempt".to_string())),
        }
    }
}

// ---- Execution view -------------------------------------------------------

/// The current Attempt of a Run: identity, status and session, consistent.
#[derive(Debug, Clone, PartialEq, Eq)]
pub struct AttemptLineageView {
    pub attempt: AttemptRecord,
    pub observed_execution: Observation,
    pub terminal: bool,
    pub launch_contact_state: LaunchContactState,
    pub status_revision: Revision,
    pub session: AgentControlSessionView,
}

/// A Run's execution state, as the Run Controller reads it before acting.
#[derive(Debug, Clone, PartialEq, Eq)]
pub struct RunExecutionView {
    pub run_id: String,
    pub task_id: String,
    pub binding_digest: [u8; 32],
    pub source_snapshot_digest: [u8; 32],
    pub phase: String,
    pub revision: Revision,
    pub current_attempt_id: Option<String>,
    /// The digest of the ContextPlan attached through the one-time relation,
    /// once preparation has reached ContextReady.
    pub context_plan_digest: Option<[u8; 32]>,
    /// The current Attempt lineage, when one exists.
    pub attempt: Option<AttemptLineageView>,
}

/// Whether the Run has a nonterminal Attempt status row.
pub open spec fn has_live_status(s: Store, run_id: Seq<char>) -> bool {
    exists|i: int| 0 <= i < s.attempt_status@.len() && (#[trigger] s.attempt_status@[i]).run_id@ == run_id
        && !s.attempt_status@[i].terminal
}

/// The Run's nonterminal Attempt status row.
pub open spec fn live_status(s: Store, run_id: Seq<char>) -> AttemptStatusRow {
    s.attempt_status@[choose|i: int|
        0 <= i < s.attempt_status@.len() && (#[trigger] s.attempt_status@[i]).run_id@ == run_id
            && !s.attempt_status@[i].terminal]
}

/// What the lineage part of the execution view owes: nothing without a
/// nonterminal Attempt whose identity and session are both stored; that
/// Attempt's consistent view when its session is ACTIVE.
pub open spec fn lineage_view(s: Store, run_id: Seq<char>, r: Result<Option<AttemptLineageView>, StoreError>) -> bool {
    let st = live_status(s, run_id);
    let ai = find_last(s.attempts@, attempt_key(), st.attempt_id@);
    let se = find_last(s.sessions@, session_key(), st.attempt_id@);
    let a = s.attempts@[ai];
    let session = s.sessions@[se];
    if !has_live_status(s, run_id) || ai < 0 || se < 0 {
        r == Ok::<Option<AttemptLineageView>, StoreError>(None)
    } else if !(session.state is Active) {
        r matches Err(StoreError::InvariantViolated(_))
    } else {
        &&& r matches Ok(Some(v))
        &&& v.attempt.id == a.id && v.attempt.run_id@ == run_id && v.attempt.ordinal == a.ordinal
        &&& v.attempt.launch_key == a.launch_key
        &&& v.observed_execution == st.observed_execution && v.terminal == st.terminal
        &&& v.launch_contact_state == st.launch_contact_state && v.status_revision.value == st.revision
        &&& v.session.id == session.id && v.session.attempt_id == a.id
        &&& v.session.restore_generation == session.restore_generation
        &&& v.session.credential_revision == session.credential_revision
        &&& v.session.state@ == session.state.spec_as_str()@
    }
}

impl Store {
    /// The current Attempt lineage of a Run: its one nonterminal Attempt,
    /// with identity, status and session read consistently.
    fn load_current_lineage(&self, run_id: &str) -> (r: Result<Option<AttemptLineageView>, StoreError>)
        requires
            self.wf(),
        ensures
            lineage_view(*self, run_id@, r),
    {
        let mut found: Option<usize> = None;
        let mut i: usize = 0;
        while i < self.attempt_status.len()
            invariant
                self.wf(),
                i <= self.attempt_status@.len(),
                match found {
                    Some(k) => k < i && self.attempt_status@[k as int].run_id@ == run_id@
                        && !self.attempt_status@[k as int].terminal,
                    None => forall|j: int|
                        0 <= j < i ==> !((#[trigger] self.attempt_status@[j]).run_id@ == run_id@
                            && !self.attempt_status@[j].terminal),
                },
            decreases self.attempt_status@.len() - i,
        {
            let st = &self.attempt_status[i];
            if !st.terminal && str_eq(st.run_id.as_str(), run_id) {
                found = Some(i);
            }
            i = i + 1;
        }
        let k: usize = match found {
            None => return Ok(None),
            Some(k) => k,
        };
        proof {
            let w = choose|j: int|
                0 <= j < self.attempt_status@.len() && (#[trigger] self.attempt_status@[j]).run_id@ == run_id@
                    && !self.attempt_status@[j].terminal;
            if w != k as int {
                assert(self.attempt_status@[w].run_id@ != self.attempt_status@[k as int].run_id@);
            }
        }
        let st = &self.attempt_status[k];
        let ai: usize = match find_attempt(&self.attempts, st.attempt_id.as_str()) {
            None => return Ok(None),
            Some(a) => a,
        };
        let se: usize = match find_session(&self.sessions, st.attempt_id.as_str()) {
            None => return Ok(None),
            Some(x) => x,
        };
        let a = &self.attempts[ai];
        let session = &self.sessions[se];
        if session.state != SessionState::Active {
            return Err(StoreError::InvariantViolated("a nonterminal Attempt's session is not ACTIVE".to_string()));
        }
        Ok(
            Some(
                AttemptLineageView {
                    attempt: AttemptRecord {
                        id: a.id.clone(),
                        run_id: run_id.to_owned(),
                        ordinal: a.ordinal,
                        launch_key: a.launch_key.clone(),
                    },
                    observed_execution: st.observed_execution,
                    terminal: st.terminal,
                    launch_contact_state: st.launch_contact_state,
                    status_revision: Revision { value: st.revision },
                    session: AgentControlSessionView {
                        id: session.id.clone(),
                        attempt_id: a.id.clone(),
                        restore_generation: session.restore_generation.clone(),
                        credential_revision: session.credential_revision,
                        state: session.state.as_str().to_owned(),
                    },
                },
            ),
        )
    }

    /// A Run's execution state: its identity and frozen authority, its
    /// lifecycle phase and revision, its attached ContextPlan if any, and its
    /// current Attempt lineage. `None` when the Run does not exist.
    pub fn run_execution_view(&self, run_id: &str) -> (r: Result<Option<RunExecutionView>, StoreError>)
        requires
            self.wf(),
        ensures
            ({
                let ri = find_last(self.runs@, crate::scheduling::run_record_key(), run_id@);
                let si = find_last(self.run_status@, run_key(), run_id@);
                let pi = find_last(self.run_context_plans@, plan_key(), run_id@);
                let run = self.runs@[ri];
                let st = self.run_status@[si];
                if ri < 0 || si < 0 {
                    r == Ok::<Option<RunExecutionView>, StoreError>(None)
                } else {
                    match r {
                        Ok(Some(v)) => {
                            &&& v.run_id@ == run_id@ && v.task_id == run.task_id
                            &&& v.binding_digest == run.binding_digest
                            &&& v.source_snapshot_digest == run.context_source_snapshot_digest
                            &&& v.phase@ == st.phase.spec_as_str()@ && v.revision.value == st.revision
                            &&& v.current_attempt_id == st.current_attempt_id
                            &&& v.context_plan_digest == if pi >= 0 {
                                Some(self.run_context_plans@[pi].context_plan_digest)
                            } else {
                                None
                            }
                            &&& lineage_view(*self, run_id@, Ok(v.attempt))
                        },
                        Ok(None) => false,
                        Err(e) => lineage_view(*self, run_id@, Err(e)),
                    }
                }
            }),
    {
        let ri: usize = match crate::context::find_run_record(&self.runs, run_id) {
            None => return Ok(None),
            Some(i) => i,
        };
        let si: usize = match find_run(&self.run_status, run_id) {
            None => return Ok(None),
            Some(i) => i,
        };
        let plan: Option<[u8; 32]> = match crate::context::find_attachment(&self.run_context_plans, run_id) {
            Some(p) => Some(self.run_context_plans[p].context_plan_digest),
            None => None,
        };
        let attempt = match self.load_current_lineage(run_id) {
            Ok(a) => a,
            Err(e) => return Err(e),
        };
        let run = &self.runs[ri];
        let st = &self.run_status[si];
        Ok(
            Some(
                RunExecutionView {
                    run_id: run_id.to_owned(),
                    task_id: run.task_id.clone(),
                    binding_digest: run.binding_digest,
                    source_snapshot_digest: run.context_source_snapshot_digest,
                    phase: st.phase.as_str().to_owned(),
                    revision: Revision { value: st.revision },
                    current_attempt_id: copy_text_option(&st.current_attempt_id),
                    context_plan_digest: plan,
                    attempt,
                },
            ),
        )
    }
}

} // verus!
